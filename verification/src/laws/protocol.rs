//! Which lines are answered, and what every answer carries.

use crate::json::{rendered, JsonTree};
use crate::laws::json::{list_under, text_under, tree_under};
use crate::laws::text::all_white;
use crate::laws::tools::has_keys;
use crate::mcp::{
    built_request, call_arguments, call_result, finished_call, handles, initialize_tree,
    lemma_action_position, line_outcome, plan_texts, planned, processed, result_response,
    unknown_method_response, CallPlan, Handled, Pending,
};
use crate::serde_bridge::{integer_number, parse_outcome, whole_value};
use crate::text::{is_white, trimmed, trimmed_end, trimmed_start};
use vstd::prelude::*;

verus! {

/// A response carries the version of the protocol and the id of its request,
/// and either a result or an error.
pub proof fn law_response_carries_the_id(id: JsonTree, result: JsonTree, method: Seq<char>)
    ensures
        result_response(id, result).at("jsonrpc"@) == JsonTree::Text("2.0"@),
        result_response(id, result).field("id"@) == Some(id),
        result_response(id, result).field("result"@) == Some(result),
        result_response(id, result).field("error"@) is None,
        unknown_method_response(id, method).at("jsonrpc"@) == JsonTree::Text("2.0"@),
        unknown_method_response(id, method).field("id"@) == Some(id),
        unknown_method_response(id, method).field("result"@) is None,
        unknown_method_response(id, method).field("error"@) is Some,
{
    reveal_strlit("jsonrpc");
    reveal_strlit("id");
    reveal_strlit("result");
    reveal_strlit("error");
    assert("jsonrpc"@.len() == 7 && "id"@.len() == 2 && "result"@.len() == 6 && "error"@.len()
        == 5);
}

/// A request is answered exactly where it has an id, and what is left to do
/// about it, the response or the step that leads to one, carries that id.
pub proof fn law_only_notifications_go_unanswered(request: JsonTree, pending: Option<Pending>)
    requires
        processed(request, pending),
    ensures
        pending is None <==> request.field("id"@) is None,
        pending matches Some(Pending::Respond(response)) ==> response@.field("id"@)
            == request.field("id"@),
        pending matches Some(Pending::ListTools { id }) ==> Some(id@) == request.field("id"@),
        pending matches Some(Pending::CallTool { id, params: _ }) ==> Some(id@) == request.field(
            "id"@,
        ),
{
    if request.field("id"@) is Some {
        if let Some(Pending::Respond(response)) = pending {
            let id = request.field("id"@)->0;
            let result = response@.at("result"@);
            law_response_carries_the_id(id, result, request.at("method"@).text_or(""@));
            reveal_strlit("id");
            reveal_strlit("result");
            assert("id"@.len() == 2 && "result"@.len() == 6);
        }
    }
}

/// A tool call that fails, at whatever step, is answered with a result that
/// says so; one that the app answered says that it did not.
pub proof fn law_failed_call_says_so(
    params: JsonTree,
    capabilities: Result<JsonTree, Seq<char>>,
    method: Seq<char>,
    target: Seq<char>,
    outcome: Result<JsonTree, Seq<char>>,
)
    ensures
        planned(params, capabilities) matches Err(result) ==> result.at("isError"@)
            == JsonTree::Bool(true),
        finished_call(method, target, outcome).at("isError"@) == JsonTree::Bool(outcome is Err),
{
}

/// A run of white space has nothing left when it is trimmed at its start.
proof fn lemma_trimmed_start_white(text: Seq<char>)
    ensures
        trimmed_start(text).len() == 0 <==> forall|i: int|
            0 <= i < text.len() ==> is_white(#[trigger] text[i]),
        trimmed_start(text).len() > 0 ==> !is_white(trimmed_start(text)[0]),
    decreases text.len(),
{
    if text.len() > 0 && is_white(text[0]) {
        let rest = text.drop_first();
        lemma_trimmed_start_white(rest);
        if trimmed_start(text).len() == 0 {
            assert forall|i: int| 0 <= i < text.len() implies is_white(#[trigger] text[i]) by {
                if i > 0 {
                    assert(rest[i - 1] == text[i]);
                }
            }
        }
        if forall|i: int| 0 <= i < text.len() ==> is_white(#[trigger] text[i]) {
            assert forall|i: int| 0 <= i < rest.len() implies is_white(#[trigger] rest[i]) by {
                assert(rest[i] == text[i + 1]);
            }
        }
    }
}

/// A text that starts with something else keeps it when trimmed at its end.
proof fn lemma_trimmed_end_keeps(text: Seq<char>)
    requires
        text.len() > 0,
        !is_white(text[0]),
    ensures
        trimmed_end(text).len() > 0,
    decreases text.len(),
{
    if is_white(text.last()) {
        assert(text.drop_last()[0] == text[0]);
        lemma_trimmed_end_keeps(text.drop_last());
    }
}

/// A line holds nothing exactly where it is all white space.
pub proof fn law_blank_line_is_white_space(line: Seq<char>)
    ensures
        line_outcome(line) is None <==> forall|i: int|
            0 <= i < line.len() ==> is_white(#[trigger] line[i]),
{
    lemma_trimmed_start_white(line);
    if trimmed_start(line).len() > 0 {
        lemma_trimmed_end_keeps(trimmed_start(line));
    }
}

/// White space before or after a line changes nothing.
pub proof fn law_white_space_around_a_line_is_ignored(line: Seq<char>, c: char)
    requires
        is_white(c),
    ensures
        line_outcome(seq![c] + line) == line_outcome(line),
        line_outcome(line.push(c)) == line_outcome(line),
{
    assert((seq![c] + line).drop_first() =~= line);
    lemma_trimmed_behind(line, c);
}

proof fn lemma_trimmed_behind(line: Seq<char>, c: char)
    requires
        is_white(c),
    ensures
        trimmed(line.push(c)) == trimmed(line),
    decreases line.len(),
{
    let longer = line.push(c);
    if line.len() > 0 && is_white(line[0]) {
        assert(longer.drop_first() =~= line.drop_first().push(c));
        lemma_trimmed_behind(line.drop_first(), c);
    } else if line.len() > 0 {
        assert(longer.drop_last() =~= line);
    } else {
        assert(longer.drop_first() =~= line);
        assert(trimmed_start(longer) == trimmed_start(longer.drop_first()));
    }
}

/// The result of a tool call is one block of text and says whether it failed.
pub open spec fn says(result: JsonTree, text: Seq<char>, is_error: bool) -> bool {
    let content = list_under(result, "content"@);
    &&& has_keys(result, set!["content"@, "isError"@])
    &&& result.field("isError"@) == Some(JsonTree::Bool(is_error))
    &&& result.at("content"@) is List
    &&& content.len() == 1
    &&& has_keys(content[0], set!["type"@, "text"@])
    &&& content[0].field("type"@) == Some(JsonTree::Text("text"@))
    &&& content[0].field("text"@) == Some(JsonTree::Text(text))
}

/// The result of a tool call says its text and whether it failed, and nothing
/// else.
pub proof fn law_call_result_says_its_text(text: Seq<char>, is_error: bool)
    ensures
        says(call_result(text, is_error), text, is_error),
{
    reveal_strlit("content");
    reveal_strlit("isError");
    reveal_strlit("type");
    reveal_strlit("text");
    assert("content"@.len() == 7 && "isError"@.len() == 7 && "type"@.len() == 4 && "text"@.len()
        == 4);
    assert("content"@[0] == 'c' && "isError"@[0] == 'i');
    assert("type"@[1] == 'y' && "text"@[1] == 'e');
    let result = call_result(text, is_error);
    assert(result->Record_0.dom() =~= set!["content"@, "isError"@]);
    let block = list_under(result, "content"@)[0];
    assert(block->Record_0.dom() =~= set!["type"@, "text"@]);
}

/// The arguments of a tool call are what stands under `arguments`, and none
/// where nothing does.
pub proof fn law_arguments_are_the_calls_own(params: JsonTree)
    ensures
        call_arguments(params) == tree_under(
            params,
            "arguments"@,
            JsonTree::Record(Map::empty()),
        ),
{
}

/// `at` is the place of the first listed action of the name that a tool call
/// gives, and the number of actions where none has it.
pub open spec fn is_first_named(params: JsonTree, list: JsonTree, at: int) -> bool {
    let actions = list_under(list, "actions"@);
    let name = JsonTree::Text(text_under(params, "name"@, ""@));
    &&& 0 <= at <= actions.len()
    &&& forall|i: int|
        0 <= i < at ==> tree_under(#[trigger] actions[i], "name"@, JsonTree::Null) != name
    &&& at < actions.len() ==> tree_under(actions[at], "name"@, JsonTree::Null) == name
}

/// A tool call goes to the first listed action of its name, with the method
/// that the action is listed with, `GET` where none is, and the request that
/// the call's own arguments make. It is answered with an error that gives the
/// reason where the app could not be reached, where no action has the name,
/// and where the request could not be made.
pub open spec fn goes_where_it_names(
    params: JsonTree,
    capabilities: Result<JsonTree, Seq<char>>,
    at: int,
    plan: Result<(Seq<char>, Seq<char>, Seq<char>), JsonTree>,
) -> bool {
    let name = text_under(params, "name"@, ""@);
    match capabilities {
        Err(message) => plan is Err && says(
            plan->Err_0,
            "could not reach the app: "@ + message,
            true,
        ),
        Ok(list) => {
            let actions = list_under(list, "actions"@);
            if at == actions.len() {
                plan is Err && says(plan->Err_0, "no such action: "@ + name, true)
            } else {
                let request = built_request(
                    actions[at],
                    tree_under(params, "arguments"@, JsonTree::Record(Map::empty())),
                );
                &&& request is Err ==> plan is Err && says(plan->Err_0, request->Err_0, true)
                &&& request is Ok ==> plan is Ok && plan->Ok_0.0 == text_under(
                    actions[at],
                    "method"@,
                    "GET"@,
                ) && plan->Ok_0.1 == request->Ok_0.0 && plan->Ok_0.2 == request->Ok_0.1
            }
        },
    }
}

/// A tool call goes where it names.
pub proof fn law_call_goes_to_the_action_it_names(
    params: JsonTree,
    capabilities: Result<JsonTree, Seq<char>>,
    at: int,
)
    requires
        capabilities matches Ok(list) ==> is_first_named(params, list, at),
    ensures
        goes_where_it_names(params, capabilities, at, planned(params, capabilities)),
{
    let name = text_under(params, "name"@, ""@);
    law_arguments_are_the_calls_own(params);
    match capabilities {
        Err(message) => {
            law_call_result_says_its_text("could not reach the app: "@ + message, true);
        },
        Ok(tree) => {
            let actions = list_under(tree, "actions"@);
            assert forall|i: int| 0 <= i < at implies (#[trigger] actions[i]).at("name"@)
                != JsonTree::Text(name) by {
                assert(tree_under(actions[i], "name"@, JsonTree::Null) != JsonTree::Text(name));
            }
            lemma_action_position(actions, name, at);
            law_call_result_says_its_text("no such action: "@ + name, true);
            if at < actions.len() {
                let request = built_request(actions[at], call_arguments(params));
                if request is Err {
                    law_call_result_says_its_text(request->Err_0, true);
                }
            }
        },
    }
}

/// A plan sends the method, target and body it holds, or is done with the
/// result it holds.
pub proof fn law_plan_is_what_it_holds(plan: CallPlan)
    ensures
        plan matches CallPlan::Done(result) ==> plan_texts(plan) == Err::<
            (Seq<char>, Seq<char>, Seq<char>),
            JsonTree,
        >(result@),
        plan matches CallPlan::Send(request) ==> plan_texts(plan) == Ok::<
            (Seq<char>, Seq<char>, Seq<char>),
            JsonTree,
        >((request.method@, request.target@, request.body@)),
{
}

/// A call that was sent is answered with the JSON text of what the app said, or
/// with an error that names the request and gives the reason.
pub proof fn law_sent_call_is_answered(
    method: Seq<char>,
    target: Seq<char>,
    outcome: Result<JsonTree, Seq<char>>,
)
    ensures
        outcome matches Ok(answer) ==> says(
            finished_call(method, target, outcome),
            rendered(answer),
            false,
        ),
        outcome matches Err(message) ==> says(
            finished_call(method, target, outcome),
            method + seq![' '] + target + " failed: "@ + message,
            true,
        ),
{
    reveal_strlit(" ");
    assert(" "@ =~= seq![' ']);
    match outcome {
        Ok(answer) => {
            law_call_result_says_its_text(rendered(answer), false);
        },
        Err(message) => {
            law_call_result_says_its_text(
                method + seq![' '] + target + " failed: "@ + message,
                true,
            );
        },
    }
}

/// The answer to a client that opens the connection: the version it asked for,
/// the known one where it asked for none, that there are tools, and who
/// answers.
pub open spec fn welcomes(result: JsonTree, params: JsonTree) -> bool {
    let capabilities = tree_under(result, "capabilities"@, JsonTree::Null);
    let server = tree_under(result, "serverInfo"@, JsonTree::Null);
    &&& has_keys(result, set!["protocolVersion"@, "capabilities"@, "serverInfo"@])
    &&& result.field("protocolVersion"@) == Some(
        JsonTree::Text(text_under(params, "protocolVersion"@, "2024-11-05"@)),
    )
    &&& has_keys(capabilities, set!["tools"@])
    &&& has_keys(capabilities.at("tools"@), Set::empty())
    &&& has_keys(server, set!["name"@, "version"@])
    &&& server.field("name"@) == Some(JsonTree::Text("agentic-app"@))
    &&& server.field("version"@) == Some(JsonTree::Text("0.1.0"@))
}

/// A client that opens the connection gets the version it asked for.
pub proof fn law_client_is_welcomed(params: JsonTree)
    ensures
        welcomes(initialize_tree(params), params),
{
    reveal_strlit("protocolVersion");
    reveal_strlit("capabilities");
    reveal_strlit("serverInfo");
    reveal_strlit("name");
    reveal_strlit("version");
    assert("protocolVersion"@.len() == 15 && "capabilities"@.len() == 12 && "serverInfo"@.len()
        == 10);
    assert("name"@.len() == 4 && "version"@.len() == 7);
    let result = initialize_tree(params);
    assert(result->Record_0.dom() =~= set!["protocolVersion"@, "capabilities"@, "serverInfo"@]);
    let capabilities = tree_under(result, "capabilities"@, JsonTree::Null);
    assert(capabilities->Record_0.dom() =~= set!["tools"@]);
    assert(capabilities.at("tools"@)->Record_0.dom() =~= Set::empty());
    let server = tree_under(result, "serverInfo"@, JsonTree::Null);
    assert(server->Record_0.dom() =~= set!["name"@, "version"@]);
}

/// A response carries the version of JSON-RPC, the id of its request and a
/// result, and nothing else.
pub open spec fn responds(response: JsonTree, id: JsonTree, result: JsonTree) -> bool {
    &&& has_keys(response, set!["jsonrpc"@, "id"@, "result"@])
    &&& response.field("jsonrpc"@) == Some(JsonTree::Text("2.0"@))
    &&& response.field("id"@) == Some(id)
    &&& response.field("result"@) == Some(result)
}

/// A response carries the version of JSON-RPC, the id of its request and an
/// error that no method has the name, and nothing else.
pub open spec fn responds_unknown(response: JsonTree, id: JsonTree, method: Seq<char>) -> bool {
    let error = tree_under(response, "error"@, JsonTree::Null);
    &&& has_keys(response, set!["jsonrpc"@, "id"@, "error"@])
    &&& response.field("jsonrpc"@) == Some(JsonTree::Text("2.0"@))
    &&& response.field("id"@) == Some(id)
    &&& has_keys(error, set!["code"@, "message"@])
    &&& error.at("code"@) is Number
    &&& whole_value(error.at("code"@)->Number_0) == Some(-32601int)
    &&& error.field("message"@) == Some(JsonTree::Text("method not found: "@ + method))
}

/// A result is sent under the id of its request.
pub proof fn law_result_is_sent_under_its_id(id: JsonTree, result: JsonTree)
    ensures
        responds(result_response(id, result), id, result),
{
    law_response_carries_the_id(id, result, Seq::empty());
    reveal_strlit("jsonrpc");
    reveal_strlit("id");
    reveal_strlit("result");
    assert("jsonrpc"@.len() == 7 && "id"@.len() == 2 && "result"@.len() == 6);
    assert(result_response(id, result)->Record_0.dom() =~= set!["jsonrpc"@, "id"@, "result"@]);
}

proof fn lemma_unknown_method_fields(id: JsonTree, method: Seq<char>)
    requires
        whole_value(integer_number(-32601)) == Some(-32601int),
    ensures
        responds_unknown(unknown_method_response(id, method), id, method),
{
    law_response_carries_the_id(id, JsonTree::Null, method);
    reveal_strlit("jsonrpc");
    reveal_strlit("id");
    reveal_strlit("error");
    reveal_strlit("code");
    reveal_strlit("message");
    assert("jsonrpc"@.len() == 7 && "id"@.len() == 2 && "error"@.len() == 5);
    assert("code"@.len() == 4 && "message"@.len() == 7);
    let response = unknown_method_response(id, method);
    assert(response->Record_0.dom() =~= set!["jsonrpc"@, "id"@, "error"@]);
    let error = tree_under(response, "error"@, JsonTree::Null);
    assert(error->Record_0.dom() =~= set!["code"@, "message"@]);
}

/// The five kinds of method have different names.
proof fn lemma_methods_differ()
    ensures
        "initialize"@ != "tools/list"@,
        "initialize"@ != "tools/call"@,
        "initialize"@ != "ping"@,
        "tools/list"@ != "tools/call"@,
        "tools/list"@ != "ping"@,
        "tools/call"@ != "ping"@,
{
    reveal_strlit("initialize");
    reveal_strlit("tools/list");
    reveal_strlit("tools/call");
    reveal_strlit("ping");
    assert("initialize"@.len() == 10 && "tools/list"@.len() == 10 && "tools/call"@.len() == 10
        && "ping"@.len() == 4);
    assert("initialize"@[0] == 'i' && "tools/list"@[0] == 't' && "tools/call"@[0] == 't');
    assert("tools/list"@[6] == 'l' && "tools/call"@[6] == 'c');
}

/// Each request with an id is dealt with as its method says: `initialize` is
/// welcomed, `ping` gets an empty object, a call of a tool goes on with exactly
/// the request's own params, and a list of tools and a call keep the id; any
/// other method gets the error that names it. A request without an id gets
/// nothing.
pub open spec fn is_dealt_with(request: JsonTree, pending: Option<Pending>) -> bool {
    let has_id = request is Record && request->Record_0.contains_key("id"@);
    let id = tree_under(request, "id"@, JsonTree::Null);
    let method = text_under(request, "method"@, ""@);
    let params = tree_under(request, "params"@, JsonTree::Record(Map::empty()));
    &&& pending is Some <==> has_id
    &&& has_id && method == "initialize"@ ==> {
        &&& pending->0 is Respond
        &&& responds(
            pending->0->Respond_0@,
            id,
            tree_under(pending->0->Respond_0@, "result"@, JsonTree::Null),
        )
        &&& welcomes(
            tree_under(pending->0->Respond_0@, "result"@, JsonTree::Null),
            params,
        )
    }
    &&& has_id && method == "ping"@ ==> pending->0 is Respond && responds(
        pending->0->Respond_0@,
        id,
        JsonTree::Record(Map::empty()),
    )
    &&& has_id && method == "tools/list"@ ==> (pending->0 matches Pending::ListTools { id: kept }
        && kept@ == id)
    &&& has_id && method == "tools/call"@ ==> (pending->0 matches Pending::CallTool { id: kept, params: given }
        && kept@ == id && given@ == params)
    &&& has_id && method != "initialize"@ && method != "ping"@ && method != "tools/list"@
        && method != "tools/call"@ ==> pending->0 is Respond && responds_unknown(
        pending->0->Respond_0@,
        id,
        method,
    )
}

/// Each request is dealt with as its method says.
pub proof fn law_request_is_dealt_with_by_its_method(request: JsonTree, pending: Option<Pending>)
    requires
        processed(request, pending),
    ensures
        is_dealt_with(request, pending),
{
    lemma_methods_differ();
    if request is Record && request->Record_0.contains_key("id"@) {
        let id = tree_under(request, "id"@, JsonTree::Null);
        let method = text_under(request, "method"@, ""@);
        let params = tree_under(request, "params"@, JsonTree::Record(Map::empty()));
        law_client_is_welcomed(params);
        law_result_is_sent_under_its_id(id, initialize_tree(params));
        law_result_is_sent_under_its_id(id, JsonTree::Record(Map::empty()));
        if method != "initialize"@ && method != "ping"@ && method != "tools/list"@ && method
            != "tools/call"@ {
            lemma_unknown_method_fields(id, method);
        }
    }
}

/// A method calls for its own answer: `initialize` for a welcome, `ping` for an
/// empty object, the two methods on tools for the app's list of actions, and
/// any other for the error that is its name.
pub proof fn law_method_calls_for_its_answer(
    method: Seq<char>,
    params: JsonTree,
    handled: Result<Handled, String>,
)
    requires
        handles(method, params, handled),
    ensures
        method == "initialize"@ ==> (handled matches Ok(Handled::Result(result)) && welcomes(
            result@,
            params,
        )),
        method == "ping"@ ==> (handled matches Ok(Handled::Result(result)) && has_keys(
            result@,
            Set::empty(),
        )),
        method == "tools/list"@ ==> handled matches Ok(Handled::ListTools),
        method == "tools/call"@ ==> handled matches Ok(Handled::CallTool),
        method != "initialize"@ && method != "ping"@ && method != "tools/list"@ && method
            != "tools/call"@ ==> (handled matches Err(name) && name@ == method),
{
    lemma_methods_differ();
    law_client_is_welcomed(params);
    assert(Map::<Seq<char>, JsonTree>::empty().dom() =~= Set::empty());
}

/// A line is read without the white space around it: what stands between it is
/// what the parser gets.
pub proof fn law_line_is_read_without_white_space(
    before: Seq<char>,
    text: Seq<char>,
    behind: Seq<char>,
)
    requires
        all_white(before),
        all_white(behind),
        text.len() > 0,
        !is_white(text[0]),
        !is_white(text.last()),
    ensures
        line_outcome(before + text + behind) == Some(parse_outcome(text)),
{
    lemma_white_before(before, text + behind);
    assert(before + text + behind =~= before + (text + behind));
    assert((text + behind)[0] == text[0]);
    assert(trimmed_start(text + behind) == text + behind);
    lemma_white_behind(text, behind);
}

proof fn lemma_white_before(before: Seq<char>, rest: Seq<char>)
    requires
        all_white(before),
    ensures
        trimmed_start(before + rest) == trimmed_start(rest),
    decreases before.len(),
{
    if before.len() == 0 {
        assert(before + rest =~= rest);
    } else {
        let shorter = before.drop_first();
        assert(is_white(before[0]));
        assert forall|i: int| 0 <= i < shorter.len() implies is_white(#[trigger] shorter[i]) by {
            assert(shorter[i] == before[i + 1]);
        }
        assert((before + rest).drop_first() =~= shorter + rest);
        lemma_white_before(shorter, rest);
    }
}

proof fn lemma_white_behind(text: Seq<char>, behind: Seq<char>)
    requires
        all_white(behind),
        text.len() > 0,
        !is_white(text.last()),
    ensures
        trimmed_end(text + behind) == text,
    decreases behind.len(),
{
    if behind.len() == 0 {
        assert(text + behind =~= text);
    } else {
        let shorter = behind.drop_last();
        assert(is_white(behind[behind.len() - 1]));
        assert forall|i: int| 0 <= i < shorter.len() implies is_white(#[trigger] shorter[i]) by {
            assert(shorter[i] == behind[i]);
        }
        assert((text + behind).drop_last() =~= text + shorter);
        assert((text + behind).last() == behind.last());
        lemma_white_behind(text, shorter);
    }
}

} // verus!
