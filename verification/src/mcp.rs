//! The tool bridge: turns an app's own list of actions into tools, and calls
//! of those tools into requests to the app.
//!
//! Messages are JSON-RPC, one to a line. The bridge keeps no state of its own:
//! it asks the app for its list of actions whenever a client asks for tools or
//! calls one. What needs the app comes out of [`process_line`] as a
//! [`Pending`] step; the functions below say how it goes on once the app has
//! been asked.

use crate::client::outcome_tree;
use crate::json::{list_tree, rendered, Json, JsonTree};
use crate::query::{percent_encode, percent_encoded};
use crate::serde_bridge::{integer_number, parse_outcome, reads_back, serialized, whole_value};
use crate::text::{joined, replace_all, replaced, same_text, trim, trimmed};
use vstd::prelude::*;
use vstd::string::*;

verus! {

/// The protocol version that is offered to a client that asks for none.
pub const PROTOCOL_VERSION: &'static str = "2024-11-05";

/// The kinds of a param that a JSON schema knows under the same name.
pub open spec fn is_schema_type(kind: Seq<char>) -> bool {
    kind == "string"@ || kind == "integer"@ || kind == "boolean"@ || kind == "number"@
}

/// The schema type of a param's kind: the kind itself, or a string where a
/// schema does not know it.
pub open spec fn schema_type(kind: Seq<char>) -> Seq<char> {
    if is_schema_type(kind) {
        kind
    } else {
        "string"@
    }
}

/// The schema type of a param's kind. A kind that no schema knows falls back
/// to `string`, so the schema stays a valid one.
pub fn json_schema_type(kind: &str) -> (schema: &str)
    ensures
        schema@ == schema_type(kind@),
{
    if same_text(kind, "string") || same_text(kind, "integer") || same_text(kind, "boolean")
        || same_text(kind, "number") {
        kind
    } else {
        "string"
    }
}

/// The name of a listed param.
pub open spec fn param_name(param: JsonTree) -> Seq<char> {
    param.at("name"@).text_or(""@)
}

/// What a tool's schema says of a param.
pub open spec fn property_tree(param: JsonTree) -> JsonTree {
    JsonTree::Record(
        map![
            "type"@ => JsonTree::Text(schema_type(param.at("kind"@).text_or("string"@))),
            "description"@ => param.at("description"@),
        ],
    )
}

/// What a tool's schema says of each of a run of params, under its name.
pub open spec fn properties_tree(params: Seq<JsonTree>) -> Map<Seq<char>, JsonTree>
    decreases params.len(),
{
    if params.len() == 0 {
        Map::empty()
    } else {
        properties_tree(params.drop_last()).insert(
            param_name(params.last()),
            property_tree(params.last()),
        )
    }
}

/// A tool's description: the action's own, and the request it stands for.
pub open spec fn tool_description(action: JsonTree) -> Seq<char> {
    action.at("description"@).text_or(""@) + " ("@ + action.at("method"@).text_or(""@) + " "@
        + action.at("path"@).text_or(""@) + ")"@
}

/// The schema of a tool's arguments: one property for each param, wherever it
/// travels, and each of them required.
pub open spec fn input_schema(params: Seq<JsonTree>) -> JsonTree {
    JsonTree::Record(
        map![
            "type"@ => JsonTree::Text("object"@),
            "properties"@ => JsonTree::Record(properties_tree(params)),
            "required"@ => JsonTree::List(
                params.map_values(|param: JsonTree| JsonTree::Text(param_name(param))),
            ),
        ],
    )
}

/// The tool of a listed action.
pub open spec fn tool_tree(action: JsonTree) -> JsonTree {
    JsonTree::Record(
        map![
            "name"@ => action.at("name"@),
            "description"@ => JsonTree::Text(tool_description(action)),
            "inputSchema"@ => input_schema(action.at("params"@).items()),
        ],
    )
}

/// Turns a listed action into a tool. Every param becomes an argument of its
/// own, wherever it travels: a client of the tool does not know of paths,
/// queries and bodies.
pub fn action_to_tool(action: &Json) -> (tool: Json)
    ensures
        tool@ == tool_tree(action@),
{
    let params = action.items_at("params");
    let ghost trees = action@.at("params"@).items();
    let mut properties = Json::object();
    let mut required: Vec<Json> = Vec::new();
    assert(trees.take(0) =~= Seq::empty());
    for i in 0..params.len()
        invariant
            params.len() == trees.len(),
            forall|j: int| 0 <= j < params.len() ==> (#[trigger] params[j])@ == trees[j],
            properties@ == JsonTree::Record(properties_tree(trees.take(i as int))),
            required.len() == i,
            forall|j: int|
                0 <= j < i ==> (#[trigger] required[j])@ == JsonTree::Text(param_name(trees[j])),
    {
        let param = params[i];
        let name = param.text_at("name", "");
        let kind = param.text_at("kind", "string");
        let property = Json::object().with("type", Json::text(json_schema_type(kind))).with(
            "description",
            param.copy_at("description"),
        );
        assert(trees.take(i + 1).drop_last() =~= trees.take(i as int));
        properties = properties.with(name, property);
        required.push(Json::text(name));
    }
    proof {
        assert(trees.take(trees.len() as int) =~= trees);
        assert(list_tree(required@) =~= trees.map_values(
            |param: JsonTree| JsonTree::Text(param_name(param)),
        ));
    }
    let mut description = action.text_at("description", "").to_string();
    description.append(" (");
    description.append(action.text_at("method", ""));
    description.append(" ");
    description.append(action.text_at("path", ""));
    description.append(")");
    let schema = Json::object().with("type", Json::text("object")).with(
        "properties",
        properties,
    ).with("required", Json::list(required));
    Json::object().with("name", action.copy_at("name")).with(
        "description",
        Json::Text(description),
    ).with("inputSchema", schema)
}

/// An argument as text: a string is itself, anything else is its JSON text.
pub open spec fn argument_text(value: JsonTree) -> Seq<char> {
    match value {
        JsonTree::Text(text) => text,
        other => rendered(other),
    }
}

/// Writes an argument as text.
pub fn value_to_string(value: &Json) -> (text: String)
    ensures
        text@ == argument_text(value@),
{
    match value {
        Json::Text(text) => text.clone(),
        other => other.render(),
    }
}

/// The placeholder `{name}`.
pub open spec fn placeholder(name: Seq<char>) -> Seq<char> {
    "{"@ + name + "}"@
}

/// A path with a text in place of the placeholder `{name}`.
pub open spec fn substituted(path: Seq<char>, name: Seq<char>, text: Seq<char>) -> Seq<char> {
    replaced(path, placeholder(name), text)
}

/// Puts a text in place of the placeholder `{name}` of a path.
pub fn substitute(path: &str, name: &str, text: &str) -> (result: String)
    ensures
        result@ == substituted(path@, name@, text@),
{
    let mut mark = "{".to_string();
    mark.append(name);
    mark.append("}");
    proof {
        reveal_strlit("{");
    }
    replace_all(path, mark.as_str(), text)
}

/// One `name=value` of a query string.
pub open spec fn query_part(name: Seq<char>, text: Seq<char>) -> Seq<char> {
    name + "="@ + percent_encoded(text)
}

/// Writes one `name=value` of a query string.
pub fn write_query_part(name: &str, text: &str) -> (part: String)
    ensures
        part@ == query_part(name@, text@),
{
    let mut part = name.to_string();
    part.append("=");
    part.append(percent_encode(text).as_str());
    part
}

/// Where the arguments of a tool call have gone.
pub struct Placed {
    pub path: Seq<char>,
    pub query: Seq<Seq<char>>,
    pub body: Map<Seq<char>, JsonTree>,
}

/// Puts the argument of one more param where the param says.
pub open spec fn place_one(placed: Placed, param: JsonTree, arguments: JsonTree) -> Result<
    Placed,
    Seq<char>,
> {
    let name = param_name(param);
    let location = param.at("location"@).text_or("path"@);
    match arguments.field(name) {
        None => Err("missing required argument: "@ + name),
        Some(value) => if location == "path"@ {
            Ok(Placed { path: substituted(placed.path, name, argument_text(value)), ..placed })
        } else if location == "query"@ {
            Ok(Placed { query: placed.query.push(query_part(name, argument_text(value))), ..placed })
        } else if location == "body"@ {
            Ok(Placed { body: placed.body.insert(name, value), ..placed })
        } else {
            Err("unknown param location: "@ + location)
        },
    }
}

/// Puts the arguments of a run of params where the params say, one after the
/// other; the first that cannot be placed is an error.
pub open spec fn place_all(path: Seq<char>, params: Seq<JsonTree>, arguments: JsonTree) -> Result<
    Placed,
    Seq<char>,
>
    decreases params.len(),
{
    if params.len() == 0 {
        Ok(Placed { path, query: Seq::empty(), body: Map::empty() })
    } else {
        match place_all(path, params.drop_last(), arguments) {
            Ok(placed) => place_one(placed, params.last(), arguments),
            Err(message) => Err(message),
        }
    }
}

/// The target and the body of the request that the placed arguments make.
pub open spec fn request_parts(placed: Placed) -> (Seq<char>, Seq<char>) {
    (
        if placed.query.len() == 0 {
            placed.path
        } else {
            placed.path + "?"@ + joined(placed.query, "&"@)
        },
        if placed.body == Map::<Seq<char>, JsonTree>::empty() {
            ""@
        } else {
            serialized(JsonTree::Record(placed.body))
        },
    )
}

/// The target and the body of the request that a tool call stands for, or why
/// there is none.
pub open spec fn built_request(action: JsonTree, arguments: JsonTree) -> Result<
    (Seq<char>, Seq<char>),
    Seq<char>,
> {
    match place_all(action.at("path"@).text_or(""@), action.at("params"@).items(), arguments) {
        Ok(placed) => Ok(request_parts(placed)),
        Err(message) => Err(message),
    }
}

/// What [`build_request`] returns, over its texts.
pub open spec fn request_texts(outcome: Result<(String, String), String>) -> Result<
    (Seq<char>, Seq<char>),
    Seq<char>,
> {
    match outcome {
        Ok((target, body)) => Ok((target@, body@)),
        Err(message) => Err(message@),
    }
}

/// An error cannot be mended by further params.
proof fn lemma_error_stays(path: Seq<char>, params: Seq<JsonTree>, arguments: JsonTree, upto: int)
    requires
        0 <= upto <= params.len(),
        place_all(path, params.take(upto), arguments) is Err,
    ensures
        place_all(path, params, arguments) == place_all(path, params.take(upto), arguments),
    decreases params.len() - upto,
{
    if upto == params.len() {
        assert(params.take(upto) =~= params);
    } else {
        assert(params.take(upto + 1).drop_last() =~= params.take(upto));
        lemma_error_stays(path, params, arguments, upto + 1);
    }
}

/// The body is empty exactly where no argument travels in it, and else reads
/// back as the arguments that do.
pub open spec fn body_carries(placed: Placed, body: Seq<char>) -> bool {
    if placed.body == Map::<Seq<char>, JsonTree>::empty() {
        body.len() == 0
    } else {
        &&& body.len() > 0
        &&& reads_back(JsonTree::Record(placed.body)) ==> parse_outcome(body) == Ok::<
            JsonTree,
            Seq<char>,
        >(JsonTree::Record(placed.body))
    }
}

/// Builds the request that a tool call stands for: each argument goes where
/// its param says, into the path, the query string or the JSON body.
pub fn build_request(action: &Json, arguments: &Json) -> (outcome: Result<
    (String, String),
    String,
>)
    ensures
        request_texts(outcome) == built_request(action@, arguments@),
        outcome is Ok ==> body_carries(
            place_all(
                action@.at("path"@).text_or(""@),
                action@.at("params"@).items(),
                arguments@,
            )->Ok_0,
            outcome->Ok_0.1@,
        ),
{
    let mut path = action.text_at("path", "").to_string();
    let ghost start = path@;
    let mut query = String::new();
    let mut has_query: bool = false;
    let mut body = Json::object();
    let mut has_body: bool = false;
    let params = action.items_at("params");
    let ghost trees = action@.at("params"@).items();
    let ghost mut placed = Placed { path: start, query: Seq::empty(), body: Map::empty() };
    assert(trees.take(0) =~= Seq::empty());
    for i in 0..params.len()
        invariant
            params.len() == trees.len(),
            trees == action@.at("params"@).items(),
            start == action@.at("path"@).text_or(""@),
            forall|j: int| 0 <= j < params.len() ==> (#[trigger] params[j])@ == trees[j],
            place_all(start, trees.take(i as int), arguments@) == Ok::<Placed, Seq<char>>(placed),
            path@ == placed.path,
            query@ == joined(placed.query, "&"@),
            has_query == (placed.query.len() > 0),
            body@ == JsonTree::Record(placed.body),
            has_body == (placed.body != Map::<Seq<char>, JsonTree>::empty()),
    {
        let param = params[i];
        let name = param.text_at("name", "");
        proof {
            assert(trees.take(i + 1).drop_last() =~= trees.take(i as int));
            if place_all(start, trees.take(i + 1), arguments@) is Err {
                lemma_error_stays(start, trees, arguments@, i + 1);
            }
        }
        let value = match arguments.field(name) {
            Some(value) => value,
            None => {
                let mut message = "missing required argument: ".to_string();
                message.append(name);
                return Err(message);
            },
        };
        let location = param.text_at("location", "path");
        if same_text(location, "path") {
            path = substitute(path.as_str(), name, value_to_string(value).as_str());
            proof {
                placed = Placed {
                    path: substituted(placed.path, name@, argument_text(value@)),
                    ..placed
                };
            }
        } else if same_text(location, "query") {
            let part = write_query_part(name, value_to_string(value).as_str());
            let ghost before = placed.query;
            if has_query {
                query.append("&");
                query.append(part.as_str());
            } else {
                query = part;
            }
            proof {
                assert(before.push(part@).drop_last() =~= before);
                placed = Placed { query: before.push(part@), ..placed };
            }
            has_query = true;
        } else if same_text(location, "body") {
            body = body.with(name, value.clone());
            proof {
                let grown = placed.body.insert(name@, value@);
                assert(grown.contains_key(name@));
                placed = Placed { body: grown, ..placed };
            }
            has_body = true;
        } else {
            let mut message = "unknown param location: ".to_string();
            message.append(location);
            return Err(message);
        }
    }
    assert(trees.take(trees.len() as int) =~= trees);
    if has_query {
        path.append("?");
        path.append(query.as_str());
    }
    proof {
        reveal_strlit("");
    }
    if has_body {
        match body.serialize() {
            Ok(text) => Ok((path, text)),
            Err(message) => Err(message),
        }
    } else {
        Ok((path, "".to_string()))
    }
}

/// The answer to a client that opens the connection: the protocol version it
/// asked for, and who answers.
pub open spec fn initialize_tree(params: JsonTree) -> JsonTree {
    JsonTree::Record(
        map![
            "protocolVersion"@ => JsonTree::Text(
                params.at("protocolVersion"@).text_or(PROTOCOL_VERSION@),
            ),
            "capabilities"@ => JsonTree::Record(map!["tools"@ => JsonTree::Record(Map::empty())]),
            "serverInfo"@ => JsonTree::Record(
                map![
                    "name"@ => JsonTree::Text("agentic-app"@),
                    "version"@ => JsonTree::Text("0.1.0"@),
                ],
            ),
        ],
    )
}

/// Answers a client that opens the connection.
pub fn handle_initialize(params: &Json) -> (result: Json)
    ensures
        result@ == initialize_tree(params@),
{
    let version = params.text_at("protocolVersion", PROTOCOL_VERSION);
    let tools = Json::object().with("tools", Json::object());
    let info = Json::object().with("name", Json::text("agentic-app")).with(
        "version",
        Json::text("0.1.0"),
    );
    Json::object().with("protocolVersion", Json::text(version)).with("capabilities", tools).with(
        "serverInfo",
        info,
    )
}

/// The tools of an app: one for each of its listed actions, in order, and
/// none where the app could not be asked.
pub open spec fn tools_of(capabilities: Result<JsonTree, Seq<char>>) -> Seq<JsonTree> {
    match capabilities {
        Ok(tree) => tree.at("actions"@).items().map_values(|action: JsonTree| tool_tree(action)),
        Err(_) => Seq::empty(),
    }
}

/// The answer to a client that asks for the tools.
pub open spec fn tools_list_tree(capabilities: Result<JsonTree, Seq<char>>) -> JsonTree {
    JsonTree::Record(map!["tools"@ => JsonTree::List(tools_of(capabilities))])
}

/// Answers a client that asks for the tools, once the app has been asked for
/// its list of actions. An app that could not be asked has no tools yet: that
/// is no error, since a client may well ask before the app is up.
pub fn handle_tools_list(capabilities: &Result<Json, String>) -> (result: Json)
    ensures
        result@ == tools_list_tree(outcome_tree(*capabilities)),
{
    let mut tools: Vec<Json> = Vec::new();
    if let Ok(tree) = capabilities {
        let actions = tree.items_at("actions");
        let ghost trees = tree@.at("actions"@).items();
        for i in 0..actions.len()
            invariant
                actions.len() == trees.len(),
                forall|j: int| 0 <= j < actions.len() ==> (#[trigger] actions[j])@ == trees[j],
                tools.len() == i,
                forall|j: int| 0 <= j < i ==> (#[trigger] tools[j])@ == tool_tree(trees[j]),
        {
            tools.push(action_to_tool(actions[i]));
        }
    }
    assert(list_tree(tools@) =~= tools_of(outcome_tree(*capabilities)));
    Json::object().with("tools", Json::list(tools))
}

/// The result of a tool call.
pub open spec fn call_result(text: Seq<char>, is_error: bool) -> JsonTree {
    JsonTree::Record(
        map![
            "content"@ => JsonTree::List(
                seq![
                    JsonTree::Record(
                        map![
                            "type"@ => JsonTree::Text("text"@),
                            "text"@ => JsonTree::Text(text),
                        ],
                    ),
                ],
            ),
            "isError"@ => JsonTree::Bool(is_error),
        ],
    )
}

/// Writes the result of a tool call.
fn write_call_result(text: &str, is_error: bool) -> (result: Json)
    ensures
        result@ == call_result(text@, is_error),
{
    let block = Json::object().with("type", Json::text("text")).with("text", Json::text(text));
    let mut content: Vec<Json> = Vec::new();
    content.push(block);
    assert(list_tree(content@) =~= call_result(text@, is_error).at("content"@).items()) by {
        reveal_strlit("content");
        reveal_strlit("isError");
        assert("content"@.len() == "isError"@.len());
        assert("content"@[0] != "isError"@[0]);
    }
    Json::object().with("content", Json::list(content)).with("isError", Json::Bool(is_error))
}

/// The result of a tool call that failed.
pub fn error_result(message: &str) -> (result: Json)
    ensures
        result@ == call_result(message@, true),
{
    write_call_result(message, true)
}

/// A request to the app.
#[derive(Debug)]
pub struct AppRequest {
    pub method: String,
    pub target: String,
    pub body: String,
}

/// How a tool call goes on.
#[derive(Debug)]
pub enum CallPlan {
    /// It is answered with this result.
    Done(Json),
    /// The app is sent this, and [`finish_tools_call`] answers the call.
    Send(AppRequest),
}

/// The position of the first listed action of that name; the number of
/// actions where there is none.
pub open spec fn action_position(actions: Seq<JsonTree>, name: Seq<char>) -> nat
    decreases actions.len(),
{
    if actions.len() == 0 || actions[0].at("name"@) == JsonTree::Text(name) {
        0
    } else {
        1 + action_position(actions.drop_first(), name)
    }
}

/// The arguments of a tool call; none where it gives none.
pub open spec fn call_arguments(params: JsonTree) -> JsonTree {
    match params.field("arguments"@) {
        Some(arguments) => arguments,
        None => JsonTree::Record(Map::empty()),
    }
}

/// How a tool call goes on: the request to send, its method, target and body,
/// or the result it is answered with.
pub open spec fn planned(params: JsonTree, capabilities: Result<JsonTree, Seq<char>>) -> Result<
    (Seq<char>, Seq<char>, Seq<char>),
    JsonTree,
> {
    let name = params.at("name"@).text_or(""@);
    match capabilities {
        Err(message) => Err(call_result("could not reach the app: "@ + message, true)),
        Ok(tree) => {
            let actions = tree.at("actions"@).items();
            let at = action_position(actions, name) as int;
            if at < actions.len() {
                match built_request(actions[at], call_arguments(params)) {
                    Ok((target, body)) => Ok(
                        (actions[at].at("method"@).text_or("GET"@), target, body),
                    ),
                    Err(message) => Err(call_result(message, true)),
                }
            } else {
                Err(call_result("no such action: "@ + name, true))
            }
        },
    }
}

/// A plan over its texts.
pub open spec fn plan_texts(plan: CallPlan) -> Result<
    (Seq<char>, Seq<char>, Seq<char>),
    JsonTree,
> {
    match plan {
        CallPlan::Done(result) => Err(result@),
        CallPlan::Send(request) => Ok((request.method@, request.target@, request.body@)),
    }
}

/// Where the first action of a name stands, once it is known that none before
/// it has the name.
pub proof fn lemma_action_position(actions: Seq<JsonTree>, name: Seq<char>, at: int)
    requires
        0 <= at <= actions.len(),
        forall|i: int| 0 <= i < at ==> (#[trigger] actions[i]).at("name"@) != JsonTree::Text(name),
        at < actions.len() ==> actions[at].at("name"@) == JsonTree::Text(name),
    ensures
        action_position(actions, name) == at,
    decreases at,
{
    if at > 0 {
        let rest = actions.drop_first();
        assert forall|i: int| 0 <= i < at - 1 implies (#[trigger] rest[i]).at("name"@)
            != JsonTree::Text(name) by {
            assert(rest[i] == actions[i + 1]);
        }
        lemma_action_position(rest, name, at - 1);
    }
}

/// Decides how a tool call goes on, once the app has been asked for its list
/// of actions.
pub fn plan_tools_call(params: &Json, capabilities: &Result<Json, String>) -> (plan: CallPlan)
    ensures
        plan_texts(plan) == planned(params@, outcome_tree(*capabilities)),
{
    let name = params.text_at("name", "");
    let no_arguments = Json::object();
    let arguments = match params.field("arguments") {
        Some(arguments) => arguments,
        None => &no_arguments,
    };
    let tree = match capabilities {
        Ok(tree) => tree,
        Err(message) => {
            let mut text = "could not reach the app: ".to_string();
            text.append(message.as_str());
            return CallPlan::Done(error_result(text.as_str()));
        },
    };
    let actions = tree.items_at("actions");
    let ghost trees = tree@.at("actions"@).items();
    for i in 0..actions.len()
        invariant
            trees == tree@.at("actions"@).items(),
            *capabilities == Ok::<Json, String>(*tree),
            name@ == params@.at("name"@).text_or(""@),
            arguments@ == call_arguments(params@),
            actions.len() == trees.len(),
            forall|j: int| 0 <= j < actions.len() ==> (#[trigger] actions[j])@ == trees[j],
            forall|j: int|
                0 <= j < i ==> (#[trigger] trees[j]).at("name"@) != JsonTree::Text(name@),
    {
        let action = actions[i];
        let found = match action.field("name") {
            Some(Json::Text(text)) => same_text(text.as_str(), name),
            _ => false,
        };
        assert(found == (trees[i as int].at("name"@) == JsonTree::Text(name@)));
        if found {
            proof {
                lemma_action_position(trees, name@, i as int);
            }
            return match build_request(action, arguments) {
                Ok((target, body)) => CallPlan::Send(
                    AppRequest { method: action.text_at("method", "GET").to_string(), target, body },
                ),
                Err(message) => CallPlan::Done(error_result(message.as_str())),
            };
        }
    }
    proof {
        lemma_action_position(trees, name@, trees.len() as int);
    }
    let mut text = "no such action: ".to_string();
    text.append(name);
    CallPlan::Done(error_result(text.as_str()))
}

/// The result of a tool call, once the app has answered or failed to.
pub open spec fn finished_call(
    method: Seq<char>,
    target: Seq<char>,
    outcome: Result<JsonTree, Seq<char>>,
) -> JsonTree {
    match outcome {
        Ok(answer) => call_result(rendered(answer), false),
        Err(message) => call_result(method + " "@ + target + " failed: "@ + message, true),
    }
}

/// Answers a tool call, once the app has answered or failed to.
pub fn finish_tools_call(request: &AppRequest, outcome: &Result<Json, String>) -> (result: Json)
    ensures
        result@ == finished_call(request.method@, request.target@, outcome_tree(*outcome)),
{
    match outcome {
        Ok(answer) => write_call_result(answer.render().as_str(), false),
        Err(message) => {
            let mut text = request.method.clone();
            text.append(" ");
            text.append(request.target.as_str());
            text.append(" failed: ");
            text.append(message.as_str());
            error_result(text.as_str())
        },
    }
}

/// What a request's method calls for.
#[derive(Debug)]
pub enum Handled {
    /// This result, without a word to the app.
    Result(Json),
    /// The app's list of actions, then [`handle_tools_list`].
    ListTools,
    /// The app's list of actions, then [`plan_tools_call`].
    CallTool,
}

/// `handled` is what the method calls for; an unknown method is an error that
/// names it.
pub open spec fn handles(
    method: Seq<char>,
    params: JsonTree,
    handled: Result<Handled, String>,
) -> bool {
    if method == "initialize"@ {
        handled matches Ok(Handled::Result(result)) && result@ == initialize_tree(params)
    } else if method == "tools/list"@ {
        handled matches Ok(Handled::ListTools)
    } else if method == "tools/call"@ {
        handled matches Ok(Handled::CallTool)
    } else if method == "ping"@ {
        handled matches Ok(Handled::Result(result)) && result@ == JsonTree::Record(Map::empty())
    } else {
        handled matches Err(name) && name@ == method
    }
}

/// Decides what a request's method calls for.
pub fn handle(method: &str, params: &Json) -> (handled: Result<Handled, String>)
    ensures
        handles(method@, params@, handled),
{
    if same_text(method, "initialize") {
        Ok(Handled::Result(handle_initialize(params)))
    } else if same_text(method, "tools/list") {
        Ok(Handled::ListTools)
    } else if same_text(method, "tools/call") {
        Ok(Handled::CallTool)
    } else if same_text(method, "ping") {
        Ok(Handled::Result(Json::object()))
    } else {
        Err(method.to_string())
    }
}

/// The response that carries a result.
pub open spec fn result_response(id: JsonTree, result: JsonTree) -> JsonTree {
    JsonTree::Record(
        map!["jsonrpc"@ => JsonTree::Text("2.0"@), "id"@ => id, "result"@ => result],
    )
}

/// The response to a request with an unknown method.
pub open spec fn unknown_method_response(id: JsonTree, method: Seq<char>) -> JsonTree {
    JsonTree::Record(
        map![
            "jsonrpc"@ => JsonTree::Text("2.0"@),
            "id"@ => id,
            "error"@ => JsonTree::Record(
                map![
                    "code"@ => JsonTree::Number(integer_number(-32601)),
                    "message"@ => JsonTree::Text("method not found: "@ + method),
                ],
            ),
        ],
    )
}

/// Writes the response that carries a result.
pub fn respond(id: Json, result: Json) -> (response: Json)
    ensures
        response@ == result_response(id@, result@),
{
    Json::object().with("jsonrpc", Json::text("2.0")).with("id", id).with("result", result)
}

/// Writes the response to a request with an unknown method.
fn respond_unknown_method(id: Json, method: &str) -> (response: Json)
    ensures
        response@ == unknown_method_response(id@, method@),
        whole_value(integer_number(-32601)) == Some(-32601int),
{
    let mut message = "method not found: ".to_string();
    message.append(method);
    let error = Json::object().with("code", Json::integer(-32601)).with(
        "message",
        Json::Text(message),
    );
    Json::object().with("jsonrpc", Json::text("2.0")).with("id", id).with("error", error)
}

/// What is left to do about a request.
#[derive(Debug)]
pub enum Pending {
    /// Send this response.
    Respond(Json),
    /// Ask the app for its list of actions and respond with what
    /// [`handle_tools_list`] makes of it.
    ListTools { id: Json },
    /// Ask the app for its list of actions and go on as [`plan_tools_call`]
    /// says.
    CallTool { id: Json, params: Json },
}

/// `pending` is what is left to do about a request. A request without an id
/// is a notification, which gets no response; any other gets one that carries
/// its id.
pub open spec fn processed(request: JsonTree, pending: Option<Pending>) -> bool {
    let method = request.at("method"@).text_or(""@);
    let params = match request.field("params"@) {
        Some(params) => params,
        None => JsonTree::Record(Map::empty()),
    };
    match request.field("id"@) {
        None => pending is None,
        Some(id) => if method == "initialize"@ {
            pending matches Some(Pending::Respond(response)) && response@ == result_response(
                id,
                initialize_tree(params),
            )
        } else if method == "tools/list"@ {
            pending matches Some(Pending::ListTools { id: same }) && same@ == id
        } else if method == "tools/call"@ {
            pending matches Some(Pending::CallTool { id: same, params: same_params }) && same@ == id
                && same_params@ == params
        } else if method == "ping"@ {
            pending matches Some(Pending::Respond(response)) && response@ == result_response(
                id,
                JsonTree::Record(Map::empty()),
            )
        } else {
            pending matches Some(Pending::Respond(response)) && response@
                == unknown_method_response(id, method) && whole_value(integer_number(-32601))
                == Some(-32601int)
        },
    }
}

/// Decides what is left to do about a request.
pub fn process_request(request: &Json) -> (pending: Option<Pending>)
    ensures
        processed(request@, pending),
{
    let id = match request.field("id") {
        Some(id) => id.clone(),
        None => return None,
    };
    let method = request.text_at("method", "");
    let no_params = Json::object();
    let params = match request.field("params") {
        Some(params) => params,
        None => &no_params,
    };
    Some(
        match handle(method, params) {
            Ok(Handled::Result(result)) => Pending::Respond(respond(id, result)),
            Ok(Handled::ListTools) => Pending::ListTools { id },
            Ok(Handled::CallTool) => Pending::CallTool { id, params: params.clone() },
            Err(name) => Pending::Respond(respond_unknown_method(id, name.as_str())),
        },
    )
}

/// What a line holds: nothing where it is blank, else what the parser makes
/// of it without the white space around it.
pub open spec fn line_outcome(line: Seq<char>) -> Option<Result<JsonTree, Seq<char>>> {
    if trimmed(line).len() == 0 {
        None
    } else {
        Some(parse_outcome(trimmed(line)))
    }
}

/// Reads one line. A blank line holds nothing; an error is the parser's
/// message on a line that is no JSON.
pub fn read_line(line: &str) -> (request: Result<Option<Json>, String>)
    ensures
        match request {
            Ok(None) => line_outcome(line@) is None,
            Ok(Some(json)) => line_outcome(line@) == Some(Ok::<JsonTree, Seq<char>>(json@)),
            Err(message) => line_outcome(line@) == Some(Err::<JsonTree, Seq<char>>(message@)),
        },
{
    let text = trim(line);
    if text.as_str().is_empty() {
        return Ok(None);
    }
    match Json::parse(text.as_str()) {
        Ok(json) => Ok(Some(json)),
        Err(message) => Err(message),
    }
}

/// Decides what is left to do about a line: nothing for a blank line, a line
/// that is no JSON or a notification, and a response for any other.
pub fn process_line(line: &str) -> (pending: Option<Pending>)
    ensures
        match line_outcome(line@) {
            Some(Ok(request)) => processed(request, pending),
            _ => pending is None,
        },
{
    match read_line(line) {
        Ok(Some(request)) => process_request(&request),
        _ => None,
    }
}

} // verus!
