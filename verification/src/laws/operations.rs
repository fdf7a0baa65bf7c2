//! What each operation does, in terms of what it is given and what it gives
//! back: every law here is over the calls themselves.

use crate::client::{port_from, read_response, read_response_text, request_text, response_body};
use crate::json::{Json, JsonTree};
use crate::laws::json::{
    law_fields_are_read, law_simple_values_show_as_themselves, list_under, spells, text_under,
    tree_under,
};
use crate::laws::protocol::{
    goes_where_it_names, is_dealt_with, is_first_named, law_call_goes_to_the_action_it_names,
    law_call_result_says_its_text, law_client_is_welcomed, law_line_is_read_without_white_space,
    law_blank_line_is_white_space, law_method_calls_for_its_answer,
    law_request_is_dealt_with_by_its_method, law_result_is_sent_under_its_id,
    law_sent_call_is_answered, responds, says, welcomes,
};
use crate::laws::query::{
    are_escapes, is_hex_digit, is_kept, is_plain_name, law_ampersand_parts_query_strings,
    law_encoded_value_decodes, law_encoded_value_is_plain, law_escapes_decode_as_their_bytes,
    law_kept_characters_are_written_as_they_are, law_malformed_escape_is_literal,
    law_other_characters_are_written_as_escapes, law_piece_is_a_pair,
    law_plain_characters_decode_one_by_one, law_query_part_names_its_value, query_parts,
};
use crate::laws::registry::{breaks_the_rule, law_registering_takes_the_prefix};
use crate::laws::request::{
    body_arguments, can_place, law_argument_is_its_own_text, law_every_argument_is_placed,
    law_first_failure_is_named, law_placeholder_is_filled, law_request_is_made_of_what_was_placed,
    path_with_arguments, placement_error, query_arguments,
};
use crate::laws::routing::stands_nowhere;
use crate::laws::serving::{
    answers_with, hands_over, is_asked, law_outcome_is_answered,
    law_request_for_nothing_goes_nowhere, law_request_goes_to_the_first_it_asks_for,
    law_request_is_served_forwarded_or_not_found, law_target_is_path_and_query,
};
use crate::laws::text::all_white;
use crate::laws::tools::{
    actions_before, has_keys, is_registered, law_kind_has_its_schema_type,
    law_list_holds_every_action_in_order, law_list_names_the_app,
    law_listed_action_describes_the_action, law_listed_param_describes_the_param,
    law_property_describes_its_param, law_schema_names_and_requires_every_param,
    law_tool_describes_its_action, law_tools_list_has_a_tool_for_each_action, name_of, named_type,
};
use crate::laws::wire::{
    ended, has_no_blank_line_before, header_lines, law_body_follows_the_blank_line,
    law_no_blank_line_is_no_body, law_request_is_lines_and_body, law_response_is_its_body,
    law_setting_sets_the_port, law_written_request_reads_back, request_line,
};
use crate::mcp::{
    action_to_tool, build_request, error_result, finish_tools_call, handle, handle_initialize,
    handle_tools_list, json_schema_type, plan_tools_call, process_line, process_request, read_line,
    respond, substitute, value_to_string, write_query_part, AppRequest, CallPlan, Handled, Pending,
};
use crate::query::{pair_texts, parse_query_string, percent_decode, percent_encode, query_pairs};
use crate::registry::{Action, ModuleRegistration, ParamLocation};
use crate::serde_bridge::{displayed, parse_outcome, reads_back, serialized, whole_value};
use crate::server::{split_target, AgenticCall, AgenticServer, Outcome, Reply, Step};
use crate::text::{digits_value, is_white, joined, run_to, split};
use vstd::prelude::*;

verus! {

// Values and their texts.

/// A value that is shown or sent as JSON is read back as it was, where its
/// values can be read back, and what is shown is one line.
pub proof fn law_shown_value_is_read_back(
    value: &Json,
    shown: String,
    sent: Result<String, String>,
    text: &str,
    read: Result<Json, String>,
)
    requires
        call_ensures(Json::render, (value,), shown),
        call_ensures(Json::serialize, (value,), sent),
        call_ensures(Json::parse, (text,), read),
    ensures
        !shown@.contains('\n'),
        sent is Ok,
        sent->Ok_0@.len() > 0,
        reads_back(value@) && (text@ == shown@ || text@ == sent->Ok_0@) ==> read is Ok
            && read->Ok_0@ == value@,
{
}

/// Null, true and false are shown as these words and an integer as its digits.
pub proof fn law_shown_value_is_itself(value: &Json, shown: String)
    requires
        call_ensures(Json::render, (value,), shown),
    ensures
        value@ is Null ==> shown@ == "null"@,
        value@ is Bool ==> shown@ == (if value@->Bool_0 {
            "true"@
        } else {
            "false"@
        }),
        value@ is Number && whole_value(value@->Number_0) is Some ==> spells(
            shown@,
            whole_value(value@->Number_0)->0,
        ),
        value@ is Text || value@ is List || value@ is Record ==> shown@ == displayed(value@),
{
    law_simple_values_show_as_themselves(value@);
}

/// A value that is turned into the JSON crate's own and back, or copied, is the
/// same value.
pub proof fn law_value_survives_both_ways(
    value: &Json,
    outside: serde_json::Value,
    back: Json,
    copy: Json,
)
    requires
        call_ensures(Json::to_value, (value,), outside),
        call_ensures(Json::from_value, (&outside,), back),
        call_ensures(Json::clone, (value,), copy),
    ensures
        back@ == value@,
        copy@ == value@,
{
}

/// What is put into an object under a key is found under it, and what is found
/// under any other key is what was found before.
pub proof fn law_field_is_found_where_it_was_put(
    object: Json,
    key: &str,
    value: Json,
    grown: Json,
    other: &str,
    before: Option<&Json>,
    found: Option<&Json>,
)
    requires
        object@ is Record,
        call_ensures(Json::with, (object, key, value), grown),
        call_ensures(Json::field, (&object, other), before),
        call_ensures(Json::field, (&grown, other), found),
    ensures
        other@ == key@ ==> found is Some && found->0@ == value@,
        other@ != key@ ==> (found is Some <==> before is Some),
        other@ != key@ && found is Some ==> found->0@ == before->0@,
{
}

/// A field is read as what stands under its key: as it is, as a string, as a
/// list, or with a default in its place.
pub proof fn law_field_is_read_as_it_stands(
    value: &Json,
    key: &str,
    default: &str,
    text: &str,
    items: Vec<&Json>,
    copy: Json,
)
    requires
        call_ensures(Json::text_at, (value, key, default), text),
        call_ensures(Json::items_at, (value, key), items),
        call_ensures(Json::copy_at, (value, key), copy),
    ensures
        text@ == text_under(value@, key@, default@),
        copy@ == tree_under(value@, key@, JsonTree::Null),
        items@.len() == list_under(value@, key@).len(),
        forall|i: int|
            0 <= i < items@.len() ==> (#[trigger] items@[i])@ == list_under(value@, key@)[i],
{
    law_fields_are_read(value@, Map::empty(), key@, default@);
}

/// An integer that is made a value is the integer that the value gives.
pub proof fn law_integer_is_had_again(value: i64, json: Json, integer: Option<i128>)
    requires
        call_ensures(Json::integer, (value,), json),
        call_ensures(Json::as_integer, (&json,), integer),
    ensures
        integer is Some,
        integer->0 == value,
{
}

/// A value that is made of a string, of a list of values, or of nothing means
/// just that.
pub proof fn law_made_value_means_what_it_is_made_of(
    text: &str,
    string: Json,
    items: Vec<Json>,
    list: Json,
    object: Json,
)
    requires
        call_ensures(Json::text, (text,), string),
        call_ensures(Json::list, (items,), list),
        call_ensures(Json::object, (), object),
    ensures
        string@ == JsonTree::Text(text@),
        list@ is List,
        list@->List_0.len() == items@.len(),
        forall|i: int| 0 <= i < items@.len() ==> #[trigger] list@->List_0[i] == items@[i]@,
        object@ is Record,
        object@->Record_0.dom() == Set::<Seq<char>>::empty(),
{
    assert(object@->Record_0.dom() =~= Set::<Seq<char>>::empty());
}

// Query strings.

/// A text is decoded from its start: a `+` to a space, a run of escapes to the
/// text of its bytes, a malformed escape and any other character to itself, and
/// the rest as it is decoded alone.
pub proof fn law_text_is_decoded_piece_by_piece(
    text: &str,
    decoded: String,
    front: Seq<char>,
    bytes: Seq<u8>,
    rest: &str,
    decoded_rest: String,
)
    requires
        call_ensures(percent_decode, (text,), decoded),
        call_ensures(percent_decode, (rest,), decoded_rest),
        text@ == front + rest@,
    ensures
        front.len() == 0 && rest@.len() == 0 ==> decoded@.len() == 0,
        front == seq!['+'] ==> decoded@ == seq![' '] + decoded_rest@,
        front.len() == 1 && front[0] != '+' && front[0] != '%' ==> decoded@ == front + decoded_rest@,
        front.len() == 3 && front[0] == '%' && !(is_hex_digit(front[1]) && is_hex_digit(front[2]))
            ==> decoded@ == front + decoded_rest@,
        0 < front.len() < 3 && front[0] == '%' && rest@.len() == 0 ==> decoded@ == front,
        are_escapes(front, bytes) && bytes.len() > 0 && !(rest@.len() >= 3 && rest@[0] == '%'
            && is_hex_digit(rest@[1]) && is_hex_digit(rest@[2])) ==> decoded@ == (
        if vstd::utf8::valid_utf8(bytes) {
            vstd::utf8::decode_utf8(bytes)
        } else {
            Seq::new(bytes.len(), |i: int| bytes[i] as char)
        }) + decoded_rest@,
{
    law_plain_characters_decode_one_by_one(' ', Seq::empty());
    if front.len() == 0 {
        assert(text@ =~= rest@);
    }
    if front.len() == 1 && front[0] != '%' {
        law_plain_characters_decode_one_by_one(front[0], rest@);
        assert(front =~= seq![front[0]]);
    }
    if front.len() == 3 && front[0] == '%' && !(is_hex_digit(front[1]) && is_hex_digit(front[2])) {
        let escaped = front.skip(1);
        law_malformed_escape_is_literal(escaped, rest@);
        assert(seq!['%'] + escaped =~= front);
    }
    if 0 < front.len() < 3 && front[0] == '%' && rest@.len() == 0 {
        let escaped = front.skip(1);
        law_malformed_escape_is_literal(escaped, rest@);
        assert(seq!['%'] + escaped =~= front);
        assert(rest@ =~= Seq::empty());
        assert(decoded@ =~= front);
    }
    if are_escapes(front, bytes) && bytes.len() > 0 && !(rest@.len() >= 3 && rest@[0] == '%'
        && is_hex_digit(rest@[1]) && is_hex_digit(rest@[2])) {
        law_escapes_decode_as_their_bytes(front, bytes, rest@);
    }
}

/// A text is encoded from its start: a letter, a digit or one of `-`, `_`, `.`
/// and `~` as itself, any other character as the escapes of its bytes in upper
/// case, and the rest as it is encoded alone.
pub proof fn law_text_is_encoded_character_by_character(
    text: &str,
    encoded: String,
    c: char,
    rest: &str,
    encoded_rest: String,
)
    requires
        call_ensures(percent_encode, (text,), encoded),
        call_ensures(percent_encode, (rest,), encoded_rest),
        text@ == seq![c] + rest@,
    ensures
        rest@.len() == 0 ==> encoded_rest@.len() == 0,
        is_kept(c) ==> encoded@ == seq![c] + encoded_rest@,
        !is_kept(c) ==> {
            let bytes = vstd::utf8::encode_utf8(seq![c]);
            let escapes = encoded@.take(3 * bytes.len() as int);
            &&& encoded@ == escapes + encoded_rest@
            &&& are_escapes(escapes, bytes)
            &&& forall|i: int| 0 <= i < escapes.len() ==> !('a' <= #[trigger] escapes[i] <= 'f')
        },
{
    law_kept_characters_are_written_as_they_are('a', Seq::empty());
    if rest@.len() == 0 {
        assert(rest@ =~= Seq::empty());
    }
    if is_kept(c) {
        law_kept_characters_are_written_as_they_are(c, rest@);
    } else {
        law_other_characters_are_written_as_escapes(c, rest@);
    }
}

/// A piece of a query string is one pair, its name and its value decoded, where
/// it has a `=`, and none where it has not; pieces with a `&` between them are
/// the pairs of the one and then those of the other.
pub proof fn law_query_string_is_parsed_piece_by_piece(
    front: &str,
    front_pairs: Vec<(String, String)>,
    back: &str,
    back_pairs: Vec<(String, String)>,
    query: &str,
    pairs: Vec<(String, String)>,
    name: &str,
    decoded_name: String,
    value: &str,
    decoded_value: String,
)
    requires
        call_ensures(parse_query_string, (front,), front_pairs),
        call_ensures(parse_query_string, (back,), back_pairs),
        call_ensures(parse_query_string, (query,), pairs),
        call_ensures(percent_decode, (name,), decoded_name),
        call_ensures(percent_decode, (value,), decoded_value),
        query@ == front@ + seq!['&'] + back@,
        !name@.contains('&'),
        !name@.contains('='),
        !value@.contains('&'),
    ensures
        pair_texts(pairs@) == pair_texts(front_pairs@) + pair_texts(back_pairs@),
        front@ == name@ + seq!['='] + value@ ==> front_pairs@.len() == 1 && front_pairs@[0].0@
            == decoded_name@ && front_pairs@[0].1@ == decoded_value@,
        front@ == name@ ==> front_pairs@.len() == 0,
{
    reveal_strlit("&");
    assert("&"@ =~= seq!['&']);
    law_ampersand_parts_query_strings(front@, back@);
    law_piece_is_a_pair(name@, value@);
    let texts = pair_texts(front_pairs@);
    if front@ == name@ + seq!['='] + value@ {
        assert(texts.len() == 1);
        assert(texts[0] == (front_pairs@[0].0@, front_pairs@[0].1@));
    }
}

/// A value that is encoded and decoded is the same value, and its encoded form
/// holds no mark of a query string.
pub proof fn law_encoded_text_is_decoded(
    text: &str,
    encoded: String,
    wire: &str,
    decoded: String,
)
    requires
        call_ensures(percent_encode, (text,), encoded),
        call_ensures(percent_decode, (wire,), decoded),
    ensures
        wire@ == encoded@ ==> decoded@ == text@,
        !encoded@.contains('&'),
        !encoded@.contains('='),
        !encoded@.contains('+'),
        !encoded@.contains('?'),
        !encoded@.contains(' '),
{
    law_encoded_value_decodes(text@);
    assert forall|c: char| encoded@.contains(c) implies c != '&' && c != '=' && c != '+' && c != '?'
        && c != ' ' by {
        let i = encoded@.index_of(c);
        law_encoded_value_is_plain(text@, i);
    }
}

/// The query string of one part and then the rest holds the pair that was
/// written and then the pairs of the rest.
pub proof fn law_written_part_is_parsed(
    name: &str,
    text: &str,
    part: String,
    rest: &str,
    query: &str,
    rest_pairs: Vec<(String, String)>,
    pairs: Vec<(String, String)>,
)
    requires
        is_plain_name(name@),
        call_ensures(write_query_part, (name, text), part),
        call_ensures(parse_query_string, (rest,), rest_pairs),
        call_ensures(parse_query_string, (query,), pairs),
        query@ == part@ + seq!['&'] + rest@,
    ensures
        pairs@.len() == 1 + rest_pairs@.len(),
        pairs@[0].0@ == name@,
        pairs@[0].1@ == text@,
        forall|i: int|
            0 <= i < rest_pairs@.len() ==> (#[trigger] pairs@[i + 1]).0@ == rest_pairs@[i].0@
                && pairs@[i + 1].1@ == rest_pairs@[i].1@,
{
    reveal_strlit("&");
    assert("&"@ =~= seq!['&']);
    let value = part@.skip(name@.len() as int + 1);
    law_query_part_names_its_value(name@, text@);
    assert(name@ + seq!['='] =~= part@.subrange(0, name@.len() as int + 1));
    assert(part@ =~= name@ + seq!['='] + value);
    assert(!value.contains('&')) by {
        if value.contains('&') {
            let i = value.index_of('&');
            law_encoded_value_is_plain(text@, i);
        }
    }
    law_piece_is_a_pair(name@, value);
    law_ampersand_parts_query_strings(part@, rest@);
    let texts = query_pairs(query@);
    assert(texts == seq![(name@, text@)] + query_pairs(rest@));
    assert(pair_texts(pairs@)[0] == texts[0]);
    assert forall|i: int| 0 <= i < rest_pairs@.len() implies (#[trigger] pairs@[i + 1]).0@
        == rest_pairs@[i].0@ && pairs@[i + 1].1@ == rest_pairs@[i].1@ by {
        assert(pair_texts(pairs@)[i + 1] == texts[i + 1]);
        assert(pair_texts(rest_pairs@)[i] == query_pairs(rest@)[i]);
    }
}

/// A target is cut into a path without a `?` and what stands behind the first.
pub proof fn law_target_is_cut_in_two(target: &str, parts: (String, String))
    requires
        call_ensures(split_target, (target,), parts),
    ensures
        !parts.0@.contains('?'),
        target@.contains('?') ==> target@ == parts.0@ + seq!['?'] + parts.1@,
        !target@.contains('?') ==> parts.0@ == target@ && parts.1@.len() == 0,
{
    law_target_is_path_and_query(target@);
}

// The registry and the server.

/// An action is told to be valid exactly where no `GET` takes a param from the
/// body, and a location tells its name.
pub proof fn law_registry_is_told(
    action: &Action,
    valid: bool,
    location: &ParamLocation,
    name: &'static str,
)
    requires
        call_ensures(Action::is_valid, (action,), valid),
        call_ensures(ParamLocation::as_str, (location,), name),
    ensures
        valid <==> !breaks_the_rule(*action),
        name@ == (match *location {
            ParamLocation::Path => "path"@,
            ParamLocation::Query => "query"@,
            ParamLocation::Body => "body"@,
        }),
{
}

/// A server starts without modules; one that registers comes behind the others,
/// and changes neither the name nor the port.
pub proof fn law_modules_register_one_by_one<D>(
    app_name: &'static str,
    port: u16,
    fresh: AgenticServer<D>,
    server: AgenticServer<D>,
    registration: ModuleRegistration<D>,
    grown: AgenticServer<D>,
    prefix: &str,
    taken: bool,
    grown_name: &'static str,
    grown_port: u16,
)
    requires
        call_ensures(AgenticServer::<D>::new, (app_name, port), fresh),
        call_ensures(AgenticServer::<D>::register, (server, registration), grown),
        call_ensures(AgenticServer::<D>::has_prefix, (&grown, prefix), taken),
        call_ensures(AgenticServer::<D>::app_name, (&grown,), grown_name),
        call_ensures(AgenticServer::<D>::port, (&grown,), grown_port),
    ensures
        fresh@.app_name == app_name@,
        fresh@.port == port,
        fresh@.modules.len() == 0,
        grown@.modules == server@.modules.push(registration),
        grown@.app_name == server@.app_name,
        grown@.port == server@.port,
        grown_name@ == server@.app_name,
        grown_port == server@.port,
        taken <==> (prefix@ == registration.prefix@ || exists|i: int|
            0 <= i < server@.modules.len() && (#[trigger] server@.modules[i]).prefix@ == prefix@),
{
    law_registering_takes_the_prefix(server@.modules, registration, prefix@);
}

/// A routed request is the first that asks for its action, and the call hands
/// over its query string, its body and its param as they are; a request that
/// asks for no action is routed nowhere, and any other somewhere.
pub proof fn law_route_hands_the_request_over<D: Copy>(
    server: &AgenticServer<D>,
    method: &str,
    path: &str,
    query: &str,
    body: &str,
    found: Option<AgenticCall<D>>,
)
    requires
        call_ensures(AgenticServer::<D>::route, (server, method, path, query, body), found),
    ensures
        ({
            let modules = server@.modules;
            &&& found is None <==> forall|m: int, a: int, param: Option<Seq<char>>|
                !#[trigger] is_asked(modules, method@, path@, m, a, param)
            &&& found matches Some(call) ==> call.query@ == query@ && call.body@ == body@ && exists|
                m: int,
                a: int,
                param: Option<Seq<char>>,
            |
                {
                    &&& #[trigger] is_asked(modules, method@, path@, m, a, param)
                    &&& hands_over(modules, param, query@, body@, m, a, call)
                    &&& forall|n: int, b: int, other: Option<Seq<char>>|
                        (n < m || (n == m && b < a)) ==> !#[trigger] is_asked(
                            modules,
                            method@,
                            path@,
                            n,
                            b,
                            other,
                        )
                }
        }),
{
    let modules = server@.modules;
    law_request_for_nothing_goes_nowhere(modules, method@, path@, query@, body@);
    if let Some(call) = found {
        law_request_goes_to_the_first_it_asks_for(modules, method@, path@, query@, body@, call);
    }
}

/// Routing over modules hands requests over as the server itself does.
pub proof fn law_route_over_hands_the_request_over<D: Copy>(
    modules: &[ModuleRegistration<D>],
    method: &str,
    path: &str,
    query: &str,
    body: &str,
    found: Option<AgenticCall<D>>,
)
    requires
        call_ensures(AgenticServer::<D>::route_over, (modules, method, path, query, body), found),
    ensures
        found is None <==> forall|m: int, a: int, param: Option<Seq<char>>|
            !#[trigger] is_asked(modules@, method@, path@, m, a, param),
        found matches Some(call) ==> call.query@ == query@ && call.body@ == body@ && exists|
            m: int,
            a: int,
            param: Option<Seq<char>>,
        |
            {
                &&& #[trigger] is_asked(modules@, method@, path@, m, a, param)
                &&& hands_over(modules@, param, query@, body@, m, a, call)
                &&& forall|n: int, b: int, other: Option<Seq<char>>|
                    (n < m || (n == m && b < a)) ==> !#[trigger] is_asked(
                        modules@,
                        method@,
                        path@,
                        n,
                        b,
                        other,
                    )
            },
{
    law_request_for_nothing_goes_nowhere(modules@, method@, path@, query@, body@);
    if let Some(call) = found {
        law_request_goes_to_the_first_it_asks_for(modules@, method@, path@, query@, body@, call);
    }
}

/// The list of actions names the app and holds every registered action once, in
/// the order of registration: its name behind its module's prefix and a dot,
/// its method, its path behind a slash and the prefix, and its description.
pub proof fn law_server_lists_its_actions<D>(
    server: &AgenticServer<D>,
    list: Json,
    m: int,
    a: int,
)
    requires
        call_ensures(AgenticServer::<D>::capabilities_json, (server,), list),
        is_registered(server@.modules, m, a),
    ensures
        ({
            let actions = list_under(list@, "actions"@);
            let module = server@.modules[m];
            let action = module.actions@[a];
            let entry = actions[actions_before(server@.modules, m) + a];
            &&& has_keys(list@, set!["app"@, "actions"@])
            &&& text_under(list@, "app"@, ""@) == server@.app_name
            &&& actions.len() == actions_before(server@.modules, server@.modules.len() as int)
            &&& has_keys(entry, set!["name"@, "method"@, "path"@, "description"@, "params"@])
            &&& text_under(entry, "name"@, ""@) == module.prefix@ + seq!['.'] + action.name@
            &&& text_under(entry, "method"@, ""@) == action.method@
            &&& text_under(entry, "path"@, ""@) == seq!['/'] + module.prefix@ + action.path@
            &&& text_under(entry, "description"@, ""@) == action.description@
            &&& list_under(entry, "params"@).len() == action.params@.len()
        }),
{
    law_list_holds_every_action_in_order(server@, m, a);
    law_listed_action_describes_the_action(
        server@.modules[m].prefix@,
        server@.modules[m].actions@[a],
    );
}

/// A server's list names the app, whatever is registered, and is empty where
/// nothing is.
pub proof fn law_server_lists_its_name<D>(server: &AgenticServer<D>, list: Json)
    requires
        call_ensures(AgenticServer::<D>::capabilities_json, (server,), list),
    ensures
        has_keys(list@, set!["app"@, "actions"@]),
        text_under(list@, "app"@, ""@) == server@.app_name,
        list_under(list@, "actions"@).len() == actions_before(
            server@.modules,
            server@.modules.len() as int,
        ),
{
    law_list_names_the_app(server@);
}

/// Each param of a listed action is listed with its name, kind, location and
/// description.
pub proof fn law_server_lists_every_param<D>(
    server: &AgenticServer<D>,
    list: Json,
    m: int,
    a: int,
    i: int,
)
    requires
        call_ensures(AgenticServer::<D>::capabilities_json, (server,), list),
        is_registered(server@.modules, m, a),
        0 <= i < server@.modules[m].actions@[a].params@.len(),
    ensures
        ({
            let param = server@.modules[m].actions@[a].params@[i];
            let entry = list_under(list@, "actions"@)[actions_before(server@.modules, m) + a];
            let listed = list_under(entry, "params"@)[i];
            &&& has_keys(listed, set!["name"@, "kind"@, "location"@, "description"@])
            &&& text_under(listed, "name"@, ""@) == param.name@
            &&& text_under(listed, "kind"@, ""@) == param.kind@
            &&& text_under(listed, "location"@, ""@) == (match param.location {
                ParamLocation::Path => "path"@,
                ParamLocation::Query => "query"@,
                ParamLocation::Body => "body"@,
            })
            &&& text_under(listed, "description"@, ""@) == param.description@
        }),
{
    let module = server@.modules[m];
    let action = module.actions@[a];
    law_list_holds_every_action_in_order(server@, m, a);
    law_listed_action_describes_the_action(module.prefix@, action);
    law_listed_param_describes_the_param(action.params@[i]);
}

/// `GET /` is answered with the very list that the server writes, which reads
/// back from the answer. Any other request is handed to the app, with its query
/// string and its body, where it asks for an action, and is answered 404 where
/// it asks for none.
pub proof fn law_request_is_begun<D: Copy>(
    server: &AgenticServer<D>,
    method: &str,
    target: &str,
    body: &str,
    step: Step<D>,
    list: Json,
    parts: (String, String),
)
    requires
        call_ensures(AgenticServer::<D>::begin, (server, method, target, body), step),
        call_ensures(AgenticServer::<D>::capabilities_json, (server,), list),
        call_ensures(split_target, (target,), parts),
    ensures
        if method@ == "GET"@ && parts.0@ == seq!['/'] {
            &&& step is Respond
            &&& answers_with(step->Respond_0, list@)
            &&& parse_outcome(step->Respond_0.body@) == Ok::<JsonTree, Seq<char>>(list@)
        } else {
            &&& step is Respond <==> forall|m: int, a: int, param: Option<Seq<char>>|
                !#[trigger] is_asked(server@.modules, method@, parts.0@, m, a, param)
            &&& step is Respond ==> step->Respond_0.status == 404 && !step->Respond_0.json
                && step->Respond_0.body@ == "not found"@
            &&& step is Forward ==> step->Forward_0.query@ == parts.1@ && step->Forward_0.body@
                == body@ && exists|m: int, a: int, param: Option<Seq<char>>|
                {
                    &&& #[trigger] is_asked(server@.modules, method@, parts.0@, m, a, param)
                    &&& hands_over(
                        server@.modules,
                        param,
                        parts.1@,
                        body@,
                        m,
                        a,
                        step->Forward_0,
                    )
                }
        },
{
    law_request_is_served_forwarded_or_not_found(server@, method@, target@, body@, step);
    reveal_strlit("/");
    assert("/"@ =~= seq!['/']);
    if !(method@ == "GET"@ && parts.0@ == seq!['/']) {
        if let Step::Forward(call) = step {
            law_request_goes_to_the_first_it_asks_for(
                server@.modules,
                method@,
                parts.0@,
                parts.1@,
                body@,
                call,
            );
        }
    }
}

/// A call that had its outcome is answered 503 with the app's name, with an
/// error, or with the app's own answer.
pub proof fn law_call_is_finished<D: Copy>(
    server: &AgenticServer<D>,
    outcome: Outcome,
    reply: Reply,
)
    requires
        call_ensures(AgenticServer::<D>::finish, (server, outcome), reply),
    ensures
        outcome is Refused ==> reply.status == 503 && !reply.json && reply.body@
            == server@.app_name + " is shutting down"@,
        outcome is Unanswered ==> reply.status == 200 && reply.json && reply.body@ == displayed(
            JsonTree::Record(Map::empty().insert("error"@, JsonTree::Text("no reply"@))),
        ),
        outcome matches Outcome::Answered(answer) ==> answers_with(reply, answer@),
{
    law_outcome_is_answered(server@.app_name, outcome, reply);
}

// The round trip.

/// A written request is its first line, its header lines, an empty line and its
/// body. The first line, cut at its spaces, is the method, the whole target and
/// the version of the protocol, and the body is cut out again, with or without
/// one.
pub proof fn law_request_is_written_and_read(
    method: &str,
    target: &str,
    body: &str,
    request: String,
    wire: &str,
    cut: String,
)
    requires
        call_ensures(request_text, (method, target, body), request),
        call_ensures(response_body, (wire,), cut),
        wire@ == request@,
    ensures
        request@ == ended(seq![request_line(method@, target@)] + header_lines(body@)) + seq![
            '\r',
            '\n',
        ] + body@,
        !method@.contains('\r') && !target@.contains('\r') && !method@.contains(' ')
            && !target@.contains(' ') ==> split(
            request@.take(run_to(request@, '\r') as int),
            ' ',
        ) == seq![method@, target@, "HTTP/1.1"@] && cut@ == body@,
{
    law_request_is_lines_and_body(method@, target@, body@);
    if !method@.contains('\r') && !target@.contains('\r') && !method@.contains(' ')
        && !target@.contains(' ') {
        law_written_request_reads_back(method@, target@, body@);
    }
}

/// The body of a response is what follows its first empty line, and nothing
/// where it has none.
pub proof fn law_body_is_cut_out(response: &str, body: String, head: Seq<char>, rest: Seq<char>)
    requires
        call_ensures(response_body, (response,), body),
    ensures
        response@ == head + ("\r\n\r\n"@ + rest) && has_no_blank_line_before(
            head,
            "\r\n\r\n"@ + rest,
        ) ==> body@ == rest,
        has_no_blank_line_before(response@, Seq::empty()) ==> body@.len() == 0,
{
    if response@ == head + ("\r\n\r\n"@ + rest) && has_no_blank_line_before(
        head,
        "\r\n\r\n"@ + rest,
    ) {
        law_body_follows_the_blank_line(head, rest);
    }
    if has_no_blank_line_before(response@, Seq::empty()) {
        law_no_blank_line_is_no_body(response@);
    }
}

/// A response is read as the JSON value in its body, or as an error that says
/// that there is none and why.
pub proof fn law_response_is_read(
    response: &str,
    body: String,
    outcome: Result<Json, String>,
    text: &str,
    parsed: Result<Json, String>,
)
    requires
        call_ensures(response_body, (response,), body),
        call_ensures(read_response_text, (response,), outcome),
        call_ensures(Json::parse, (text,), parsed),
        text@ == body@,
    ensures
        parsed matches Ok(value) ==> outcome is Ok && outcome->Ok_0@ == value@,
        parsed matches Err(message) ==> outcome is Err && outcome->Err_0@ == "bad JSON response: "@
            + message@,
{
    law_response_is_its_body(response@);
}

/// The bytes of a text are read as the text is.
pub proof fn law_response_bytes_are_read_as_text(
    bytes: &[u8],
    outcome: Result<Json, String>,
    response: &str,
    read: Result<Json, String>,
)
    requires
        call_ensures(read_response, (bytes,), outcome),
        call_ensures(read_response_text, (response,), read),
        bytes@ == vstd::utf8::encode_utf8(response@),
    ensures
        outcome is Ok <==> read is Ok,
        read matches Ok(value) ==> outcome->Ok_0@ == value@,
        read matches Err(message) ==> outcome->Err_0@ == message@,
{
    vstd::utf8::encode_utf8_valid_utf8(response@);
    vstd::utf8::encode_utf8_decode_utf8(response@);
}

/// A setting sets the port that its digits spell, with or without a plus sign;
/// anything else, and no setting, leaves it at 7330.
pub proof fn law_port_is_read(setting: Option<&str>, port: u16)
    requires
        call_ensures(port_from, (setting,), port),
    ensures
        setting is None ==> port == 7330,
        setting matches Some(text) ==> {
            let digits = if text@.len() > 0 && text@[0] == '+' {
                text@.skip(1)
            } else {
                text@
            };
            let value = digits_value(digits);
            if digits.len() > 0 && value is Some && value->0 <= 65535 {
                port == value->0
            } else {
                port == 7330
            }
        },
{
    if let Some(text) = setting {
        law_setting_sets_the_port(text@);
    } else {
        law_setting_sets_the_port(Seq::empty());
    }
}

// Tools.

/// A kind that a schema knows is its own type, and any other is a string.
pub proof fn law_kind_is_typed(kind: &str, schema: &str)
    requires
        call_ensures(json_schema_type, (kind,), schema),
    ensures
        schema@ == named_type(kind@),
{
    law_kind_has_its_schema_type(kind@);
}

/// A tool has its action's name, a description that ends in the action's method
/// and path, and a schema that requires every param by name.
pub proof fn law_action_is_made_a_tool(action: &Json, tool: Json)
    requires
        call_ensures(action_to_tool, (action,), tool),
    ensures
        ({
            let params = list_under(action@, "params"@);
            let schema = tree_under(tool@, "inputSchema"@, JsonTree::Null);
            let required = list_under(schema, "required"@);
            &&& has_keys(tool@, set!["name"@, "description"@, "inputSchema"@])
            &&& tree_under(tool@, "name"@, JsonTree::Null) == tree_under(
                action@,
                "name"@,
                JsonTree::Null,
            )
            &&& text_under(tool@, "description"@, ""@) == text_under(action@, "description"@, ""@)
                + seq![' ', '('] + text_under(action@, "method"@, ""@) + seq![' '] + text_under(
                action@,
                "path"@,
                ""@,
            ) + seq![')']
            &&& has_keys(schema, set!["type"@, "properties"@, "required"@])
            &&& text_under(schema, "type"@, ""@) == "object"@
            &&& required.len() == params.len()
            &&& forall|i: int|
                0 <= i < params.len() ==> #[trigger] required[i] == JsonTree::Text(
                    name_of(params[i]),
                )
        }),
{
    law_tool_describes_its_action(action@);
    law_schema_names_and_requires_every_param(list_under(action@, "params"@), Seq::empty());
}

/// Each param of an action, unless a later one has its name, is a property of
/// the tool under its name, with its own description and the type of its kind,
/// whatever the kind; no other name is a property.
pub proof fn law_param_is_made_a_property(action: &Json, tool: Json, i: int, name: Seq<char>)
    requires
        call_ensures(action_to_tool, (action,), tool),
        ({
            let params = list_under(action@, "params"@);
            &&& 0 <= i < params.len()
            &&& forall|j: int|
                i < j < params.len() ==> name_of(#[trigger] params[j]) != name_of(params[i])
        }),
    ensures
        ({
            let params = list_under(action@, "params"@);
            let properties = tree_under(
                tree_under(tool@, "inputSchema"@, JsonTree::Null),
                "properties"@,
                JsonTree::Null,
            );
            let property = tree_under(properties, name_of(params[i]), JsonTree::Null);
            &&& has_keys(property, set!["type"@, "description"@])
            &&& tree_under(property, "description"@, JsonTree::Null) == tree_under(
                params[i],
                "description"@,
                JsonTree::Null,
            )
            &&& text_under(property, "type"@, ""@) == named_type(
                text_under(params[i], "kind"@, "string"@),
            )
            &&& properties is Record
            &&& properties->Record_0.contains_key(name) <==> exists|k: int|
                0 <= k < params.len() && name_of(#[trigger] params[k]) == name
        }),
{
    let params = list_under(action@, "params"@);
    law_tool_describes_its_action(action@);
    law_property_describes_its_param(params, i);
    law_schema_names_and_requires_every_param(params, name);
}

/// A client that asks for the tools gets, for each listed action and in order,
/// what the action is as a tool, and nothing where the app could not be asked.
pub proof fn law_actions_are_listed_as_tools(
    capabilities: &Result<Json, String>,
    result: Json,
    i: int,
    action: &Json,
    tool: Json,
)
    requires
        call_ensures(handle_tools_list, (capabilities,), result),
        call_ensures(action_to_tool, (action,), tool),
    ensures
        has_keys(result@, set!["tools"@]),
        capabilities is Err ==> list_under(result@, "tools"@).len() == 0,
        *capabilities matches Ok(list) ==> {
            let actions = list_under(list@, "actions"@);
            let tools = list_under(result@, "tools"@);
            &&& tools.len() == actions.len()
            &&& 0 <= i < actions.len() && actions[i] == action@ ==> tools[i] == tool@
        },
{
    law_tools_list_has_a_tool_for_each_action(crate::client::outcome_tree(*capabilities));
}

// Tool calls.

/// An argument is its own text: a string is itself, a boolean `true` or
/// `false`, null `null`, an integer its digits, and any other value its JSON
/// text.
pub proof fn law_argument_is_made_text(value: &Json, text: String)
    requires
        call_ensures(value_to_string, (value,), text),
    ensures
        value@ is Text ==> text@ == value@->Text_0,
        value@ is Bool && value@->Bool_0 ==> text@ == seq!['t', 'r', 'u', 'e'],
        value@ is Bool && !value@->Bool_0 ==> text@ == seq!['f', 'a', 'l', 's', 'e'],
        value@ is Null ==> text@ == seq!['n', 'u', 'l', 'l'],
        value@ is Number && whole_value(value@->Number_0) is Some ==> spells(
            text@,
            whole_value(value@->Number_0)->0,
        ),
        value@ is Number && whole_value(value@->Number_0) is None ==> text@ == displayed(value@),
        value@ is List || value@ is Record ==> text@ == displayed(value@),
{
    law_argument_is_its_own_text(value@);
}

/// A placeholder of a path is filled with the text: what stands before the
/// first one stays, and a path without it stays as it is.
pub proof fn law_path_is_filled(
    path: &str,
    name: &str,
    text: &str,
    filled: String,
    front: Seq<char>,
    back: Seq<char>,
)
    requires
        call_ensures(substitute, (path, name, text), filled),
        path@ == front + (seq!['{'] + name@ + seq!['}']) + back,
        forall|i: int|
            0 <= i < front.len() ==> !(seq!['{'] + name@ + seq!['}']).is_prefix_of(
                #[trigger] path@.skip(i),
            ),
        stands_nowhere(back, seq!['{'] + name@ + seq!['}']),
    ensures
        filled@ == front + text@ + back,
{
    assert forall|i: int| 0 <= i < front.len() implies !(seq!['{'] + name@ + seq![
        '}',
    ]).is_prefix_of(#[trigger] (front + (seq!['{'] + name@ + seq!['}']) + back).skip(i)) by {
        assert(!(seq!['{'] + name@ + seq!['}']).is_prefix_of(path@.skip(i)));
    }
    law_placeholder_is_filled(front, name@, back, text@);
}

/// A request is made exactly where every param has its argument and a location
/// that a request has. Its target is the action's path with the arguments that
/// travel in it and, where there are any, a `?` and the parts of the query
/// string; its body is empty where no argument travels in it, and else the JSON
/// text of those that do, from which they are read back.
pub proof fn law_tool_call_is_made_a_request(
    action: &Json,
    arguments: &Json,
    outcome: Result<(String, String), String>,
)
    requires
        call_ensures(build_request, (action, arguments), outcome),
    ensures
        ({
            let params = list_under(action@, "params"@);
            let path = path_with_arguments(
                text_under(action@, "path"@, ""@),
                params,
                arguments@,
            );
            let query = query_parts(query_arguments(params, arguments@));
            let fields = body_arguments(params, arguments@);
            &&& outcome is Ok <==> forall|i: int|
                0 <= i < params.len() ==> #[trigger] can_place(params[i], arguments@)
            &&& outcome matches Ok((target, body)) ==> {
                &&& query.len() == 0 ==> target@ == path
                &&& query.len() > 0 ==> target@ == path + seq!['?'] + joined(query, seq!['&'])
                &&& body@.len() == 0 <==> fields.dom() == Set::<Seq<char>>::empty()
                &&& body@.len() > 0 ==> body@ == serialized(JsonTree::Record(fields))
                &&& body@.len() > 0 && reads_back(JsonTree::Record(fields)) ==> parse_outcome(
                    body@,
                ) == Ok::<JsonTree, Seq<char>>(JsonTree::Record(fields))
            }
        }),
{
    let params = list_under(action@, "params"@);
    let start = text_under(action@, "path"@, ""@);
    law_request_is_made_of_what_was_placed(action@, arguments@);
    law_every_argument_is_placed(start, params, arguments@);
    let fields = body_arguments(params, arguments@);
    if fields.dom() == Set::<Seq<char>>::empty() {
        assert(fields =~= Map::<Seq<char>, JsonTree>::empty());
    }
}

/// Where no request can be made, the message is on the first param whose
/// argument cannot be placed.
pub proof fn law_refused_tool_call_says_why(
    action: &Json,
    arguments: &Json,
    outcome: Result<(String, String), String>,
    at: int,
)
    requires
        call_ensures(build_request, (action, arguments), outcome),
        ({
            let params = list_under(action@, "params"@);
            &&& 0 <= at < params.len()
            &&& forall|i: int| 0 <= i < at ==> #[trigger] can_place(params[i], arguments@)
            &&& !can_place(params[at], arguments@)
        }),
    ensures
        outcome is Err,
        outcome->Err_0@ == placement_error(list_under(action@, "params"@)[at], arguments@),
{
    law_request_is_made_of_what_was_placed(action@, arguments@);
    law_first_failure_is_named(
        text_under(action@, "path"@, ""@),
        list_under(action@, "params"@),
        arguments@,
        at,
    );
}

/// A tool call goes on with the request to the first listed action of its name,
/// made of its own arguments, or is done with an error that gives the reason.
pub proof fn law_tool_call_is_planned(
    params: &Json,
    list: &Result<Json, String>,
    plan: CallPlan,
    at: int,
)
    requires
        call_ensures(plan_tools_call, (params, list), plan),
        *list matches Ok(tree) ==> is_first_named(params@, tree@, at),
    ensures
        goes_where_it_names(
            params@,
            match *list {
                Ok(tree) => Ok::<JsonTree, Seq<char>>(tree@),
                Err(message) => Err::<JsonTree, Seq<char>>(message@),
            },
            at,
            match plan {
                CallPlan::Done(result) => Err::<(Seq<char>, Seq<char>, Seq<char>), JsonTree>(
                    result@,
                ),
                CallPlan::Send(request) => Ok::<(Seq<char>, Seq<char>, Seq<char>), JsonTree>(
                    (request.method@, request.target@, request.body@),
                ),
            },
        ),
{
    let listed = match *list {
        Ok(tree) => Ok::<JsonTree, Seq<char>>(tree@),
        Err(message) => Err::<JsonTree, Seq<char>>(message@),
    };
    law_call_goes_to_the_action_it_names(params@, listed, at);
}

/// A call that was sent is answered with the text that the app's answer is
/// shown as, or with an error that names the request and gives the reason.
pub proof fn law_tool_call_is_finished(
    request: &AppRequest,
    outcome: &Result<Json, String>,
    result: Json,
    answer: &Json,
    shown: String,
)
    requires
        call_ensures(finish_tools_call, (request, outcome), result),
        call_ensures(Json::render, (answer,), shown),
    ensures
        *outcome matches Ok(given) ==> given@ == answer@ ==> says(result@, shown@, false),
        *outcome matches Err(message) ==> says(
            result@,
            request.method@ + seq![' '] + request.target@ + " failed: "@ + message@,
            true,
        ),
{
    law_sent_call_is_answered(
        request.method@,
        request.target@,
        crate::client::outcome_tree(*outcome),
    );
}

// Messages.

/// A client is welcomed with the version it asked for, a failed call says its
/// message, and a response carries its id and its result.
pub proof fn law_answers_are_written(
    params: &Json,
    welcome: Json,
    message: &str,
    failure: Json,
    id: Json,
    result: Json,
    response: Json,
)
    requires
        call_ensures(handle_initialize, (params,), welcome),
        call_ensures(error_result, (message,), failure),
        call_ensures(respond, (id, result), response),
    ensures
        welcomes(welcome@, params@),
        says(failure@, message@, true),
        responds(response@, id@, result@),
{
    law_client_is_welcomed(params@);
    law_call_result_says_its_text(message@, true);
    law_result_is_sent_under_its_id(id@, result@);
}

/// A method calls for its own answer, and an unknown one for the error that is
/// its name.
pub proof fn law_method_is_handled(
    method: &str,
    params: &Json,
    handled: Result<Handled, String>,
)
    requires
        call_ensures(handle, (method, params), handled),
    ensures
        method@ == "initialize"@ ==> (handled matches Ok(Handled::Result(result)) && welcomes(
            result@,
            params@,
        )),
        method@ == "ping"@ ==> (handled matches Ok(Handled::Result(result)) && has_keys(
            result@,
            Set::empty(),
        )),
        method@ == "tools/list"@ ==> handled matches Ok(Handled::ListTools),
        method@ == "tools/call"@ ==> handled matches Ok(Handled::CallTool),
        method@ != "initialize"@ && method@ != "ping"@ && method@ != "tools/list"@ && method@
            != "tools/call"@ ==> (handled matches Err(name) && name@ == method@),
{
    law_method_calls_for_its_answer(method@, params@, handled);
}

/// A request is dealt with as its method says; a call of a tool goes on with
/// exactly the params of the request.
pub proof fn law_request_is_processed(request: &Json, pending: Option<Pending>)
    requires
        call_ensures(process_request, (request,), pending),
    ensures
        is_dealt_with(request@, pending),
        request@.field("id"@) is Some && text_under(request@, "method"@, ""@) == "tools/call"@
            && request@.field("params"@) is Some ==> (pending matches Some(
            Pending::CallTool { id, params },
        ) && Some(params@) == request@.field("params"@) && Some(id@) == request@.field("id"@)),
{
    law_request_is_dealt_with_by_its_method(request@, pending);
}

/// A line that holds a JSON text between white space is read, and dealt with,
/// as what the text parses as; one that is no JSON is an error with the
/// parser's message, and gets nothing.
pub proof fn law_line_is_processed(
    line: &str,
    read: Result<Option<Json>, String>,
    pending: Option<Pending>,
    before: Seq<char>,
    text: &str,
    behind: Seq<char>,
    parsed: Result<Json, String>,
)
    requires
        call_ensures(read_line, (line,), read),
        call_ensures(process_line, (line,), pending),
        call_ensures(Json::parse, (text,), parsed),
        line@ == before + text@ + behind,
        all_white(before),
        all_white(behind),
        text@.len() > 0,
        !is_white(text@[0]),
        !is_white(text@.last()),
    ensures
        parsed matches Ok(request) ==> {
            &&& read matches Ok(Some(json)) && json@ == request@
            &&& is_dealt_with(request@, pending)
        },
        parsed matches Err(message) ==> {
            &&& read matches Err(reason) && reason@ == message@
            &&& pending is None
        },
{
    law_line_is_read_without_white_space(before, text@, behind);
    if let Ok(request) = parsed {
        law_request_is_dealt_with_by_its_method(request@, pending);
    }
}

/// A line that is all white space holds nothing and gets nothing.
pub proof fn law_blank_line_is_passed_over(
    line: &str,
    read: Result<Option<Json>, String>,
    pending: Option<Pending>,
)
    requires
        call_ensures(read_line, (line,), read),
        call_ensures(process_line, (line,), pending),
        all_white(line@),
    ensures
        read matches Ok(None),
        pending is None,
{
    law_blank_line_is_white_space(line@);
}

} // verus!
