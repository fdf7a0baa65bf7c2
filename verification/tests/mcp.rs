use gpui_agentic_http::json::Json;
use gpui_agentic_http::mcp::{
    action_to_tool, build_request, error_result, finish_tools_call, handle, handle_initialize,
    handle_tools_list, json_schema_type, plan_tools_call, process_line, process_request, read_line,
    respond, substitute, value_to_string, write_query_part, AppRequest, CallPlan, Handled, Pending,
    PROTOCOL_VERSION,
};
use gpui_agentic_http::query::parse_query_string;
use gpui_agentic_http::registry::{Action, ModuleRegistration, Param, ParamLocation};
use gpui_agentic_http::server::{split_target, AgenticServer, Step};
use serde_json::Value;

fn json(text: &str) -> Json {
    Json::parse(text).unwrap()
}

fn value(text: &str) -> Value {
    serde_json::from_str(text).unwrap()
}

/// The response to a line that needs nothing from the app.
fn response(line: &str) -> Value {
    match process_line(line) {
        Some(Pending::Respond(response)) => response.to_value(),
        other => panic!("{other:?}"),
    }
}

fn done(plan: CallPlan) -> Value {
    match plan {
        CallPlan::Done(result) => result.to_value(),
        CallPlan::Send(request) => panic!("{request:?}"),
    }
}

fn sent(plan: CallPlan) -> AppRequest {
    match plan {
        CallPlan::Send(request) => request,
        CallPlan::Done(result) => panic!("{result:?}"),
    }
}

#[test]
fn a_recognised_kind_passes_through() {
    assert_eq!(json_schema_type("integer"), "integer");
}

#[test]
fn an_unrecognised_kind_falls_back_to_string() {
    assert_eq!(json_schema_type("frobnicate"), "string");
}

#[test]
fn every_kind_has_a_schema_type() {
    for kind in ["string", "integer", "boolean", "number"] {
        assert_eq!(json_schema_type(kind), kind);
    }
    for kind in ["", "String", "int", "object", "array", "null"] {
        assert_eq!(json_schema_type(kind), "string");
    }
}

fn sample_action() -> Json {
    json(
        r#"{
            "name": "assign_bookings",
            "method": "POST",
            "path": "/assign-bookings",
            "description": "assign bookings to a vehicle",
            "params": [
                {"name": "vehicle_id", "kind": "integer", "location": "path", "description": "which vehicle"},
                {"name": "verbose", "kind": "boolean", "location": "query", "description": "extra detail"},
                {"name": "booking_uids", "kind": "string", "location": "body", "description": "which bookings"}
            ]
        }"#,
    )
}

#[test]
fn action_to_tool_flattens_every_param_regardless_of_location() {
    let tool = action_to_tool(&sample_action()).to_value();
    assert_eq!(tool["name"], "assign_bookings");
    assert_eq!(
        tool["description"],
        "assign bookings to a vehicle (POST /assign-bookings)"
    );
    let props = tool["inputSchema"]["properties"].as_object().unwrap();
    assert_eq!(props.len(), 3);
    assert_eq!(props["vehicle_id"]["type"], "integer");
    assert_eq!(props["verbose"]["type"], "boolean");
    assert_eq!(props["booking_uids"]["type"], "string");
    let required = tool["inputSchema"]["required"].as_array().unwrap();
    assert_eq!(required.len(), 3);
}

#[test]
fn a_tool_is_whole() {
    let action = json(
        r#"{"name": "a", "method": "GET", "path": "/a", "description": "does a",
            "params": [{"name": "n", "kind": "odd", "location": "query", "description": "the n"},
                       {"name": "m"}]}"#,
    );
    assert_eq!(
        action_to_tool(&action).to_value(),
        value(
            r#"{"name": "a", "description": "does a (GET /a)",
                "inputSchema": {
                    "type": "object",
                    "properties": {"n": {"type": "string", "description": "the n"},
                                   "m": {"type": "string", "description": null}},
                    "required": ["n", "m"]}}"#
        )
    );
}

#[test]
fn an_action_without_fields_is_an_empty_tool() {
    let expected = value(
        r#"{"name": null, "description": " ( )",
            "inputSchema": {"type": "object", "properties": {}, "required": []}}"#,
    );
    assert_eq!(action_to_tool(&json("{}")).to_value(), expected);
    assert_eq!(action_to_tool(&json("[1]")).to_value(), expected);
    let odd = r#"{"params": "none", "path": 1, "description": [], "method": null}"#;
    assert_eq!(action_to_tool(&json(odd)).to_value(), expected);
}

#[test]
fn a_tool_does_not_say_where_its_arguments_travel() {
    let at = |location: &str| {
        let text = format!(
            r#"{{"name": "a", "params": [{{"name": "n", "kind": "integer", "location": "{location}"}}]}}"#
        );
        action_to_tool(&json(&text)).to_value()
    };
    assert_eq!(at("path"), at("query"));
    assert_eq!(at("path"), at("body"));
}

#[test]
fn a_path_param_is_substituted_into_the_path_template() {
    let action = json(r#"{"path": "/vehicle/{id}", "params": [{"name": "id", "location": "path"}]}"#);
    let (path, body) = build_request(&action, &json(r#"{"id": 42}"#)).unwrap();
    assert_eq!(path, "/vehicle/42");
    assert_eq!(body, "");
}

#[test]
fn a_query_param_is_appended_as_a_query_string() {
    let action = json(
        r#"{"path": "/vehicles", "params": [{"name": "simulation_id", "location": "query"}]}"#,
    );
    let (path, body) = build_request(&action, &json(r#"{"simulation_id": 7}"#)).unwrap();
    assert_eq!(path, "/vehicles?simulation_id=7");
    assert_eq!(body, "");
}

#[test]
fn a_query_param_value_is_percent_encoded() {
    let action = json(r#"{"path": "/search", "params": [{"name": "q", "location": "query"}]}"#);
    let (path, _) = build_request(&action, &json(r#"{"q": "a b/c"}"#)).unwrap();
    assert_eq!(path, "/search?q=a%20b%2Fc");
}

#[test]
fn multiple_query_params_are_joined_with_ampersand() {
    let action = json(
        r#"{"path": "/bookings",
            "params": [{"name": "simulation_id", "location": "query"},
                       {"name": "state", "location": "query"}]}"#,
    );
    let (path, _) =
        build_request(&action, &json(r#"{"simulation_id": 1, "state": "assigned"}"#)).unwrap();
    assert_eq!(path, "/bookings?simulation_id=1&state=assigned");
}

#[test]
fn a_body_param_ends_up_as_a_json_body_not_in_the_path() {
    let action = json(
        r#"{"path": "/assign-bookings", "params": [{"name": "booking_uids", "location": "body"}]}"#,
    );
    let (path, body) = build_request(&action, &json(r#"{"booking_uids": ["a", "b"]}"#)).unwrap();
    assert_eq!(path, "/assign-bookings");
    let parsed: Value = serde_json::from_str(&body).unwrap();
    assert_eq!(parsed["booking_uids"], value(r#"["a", "b"]"#));
}

#[test]
fn a_missing_required_argument_is_an_error() {
    let action = json(r#"{"path": "/vehicle/{id}", "params": [{"name": "id", "location": "path"}]}"#);
    let result = build_request(&action, &json("{}"));
    assert!(result.is_err());
    assert!(result.unwrap_err().contains("id"));
}

#[test]
fn the_first_argument_that_cannot_be_placed_is_the_error() {
    let action = json(
        r#"{"path": "/x", "params": [{"name": "a"}, {"name": "b", "location": "header"},
                                     {"name": "c"}]}"#,
    );
    let error = |arguments: &str| build_request(&action, &json(arguments)).unwrap_err();
    assert_eq!(error(r#"{"b": 1, "c": 1}"#), "missing required argument: a");
    assert_eq!(error(r#"{"a": 1, "c": 1}"#), "missing required argument: b");
    assert_eq!(error(r#"{"a": 1, "b": 1}"#), "unknown param location: header");
    assert_eq!(error("[]"), "missing required argument: a");
}

#[test]
fn each_argument_goes_where_its_param_says() {
    let action = json(
        r#"{"path": "/m/{id}/{id}/{other}",
            "params": [{"name": "id"}, {"name": "q", "location": "query"},
                       {"name": "b", "location": "body"}, {"name": "r", "location": "query"},
                       {"name": "c", "location": "body"}]}"#,
    );
    let arguments =
        json(r#"{"id": "x y", "q": true, "b": {"k": [1]}, "r": null, "c": "t", "extra": 1}"#);
    let (target, body) = build_request(&action, &arguments).unwrap();
    assert_eq!(target, "/m/x y/x y/{other}?q=true&r=null");
    assert_eq!(body, r#"{"b":{"k":[1]},"c":"t"}"#);
}

#[test]
fn an_action_without_params_is_requested_as_it_is() {
    let (target, body) = build_request(&json(r#"{"path": "/p"}"#), &json("null")).unwrap();
    assert_eq!((target.as_str(), body.as_str()), ("/p", ""));
    let (target, body) = build_request(&json("{}"), &json("{}")).unwrap();
    assert_eq!((target.as_str(), body.as_str()), ("", ""));
}

#[test]
fn arguments_are_written_as_text() {
    assert_eq!(value_to_string(&json(r#""a \" b""#)), "a \" b");
    for text in ["1", "-2.5", "true", "null", "[1,\"x\"]", "{\"a\":{}}"] {
        assert_eq!(value_to_string(&json(text)), text);
    }
    assert_eq!(write_query_part("n", "a&b"), "n=a%26b");
}

#[test]
fn every_placeholder_of_the_name_is_replaced_from_the_left() {
    let texts = ["/{a}/{b}/{a}", "{a}{a}", "{{a}}", "{a", "", "{}", "é{a}"];
    for text in texts {
        for by in ["", "x", "{a}", "{b}"] {
            assert_eq!(substitute(text, "a", by), text.replace("{a}", by));
            assert_eq!(substitute(text, "", by), text.replace("{}", by));
        }
    }
}

#[test]
fn ping_is_answered_directly_with_no_network_call() {
    match handle("ping", &json("{}")).unwrap() {
        Handled::Result(result) => assert_eq!(result.to_value(), value("{}")),
        other => panic!("{other:?}"),
    }
}

#[test]
fn an_unknown_method_is_an_error_naming_it() {
    let err = handle("not/a/real/method", &json("{}")).unwrap_err();
    assert_eq!(err, "not/a/real/method");
}

#[test]
fn initialize_echoes_back_the_requested_protocol_version() {
    let result = handle_initialize(&json(r#"{"protocolVersion": "2099-01-01"}"#)).to_value();
    assert_eq!(result["protocolVersion"], "2099-01-01");
    assert_eq!(result["serverInfo"]["name"], "agentic-app");
}

#[test]
fn initialize_falls_back_to_the_known_protocol_version() {
    let result = handle_initialize(&json("{}")).to_value();
    assert_eq!(result["protocolVersion"], PROTOCOL_VERSION);
}

#[test]
fn the_answer_to_initialize_is_whole() {
    let expected = value(
        r#"{"protocolVersion": "2024-11-05", "capabilities": {"tools": {}},
            "serverInfo": {"name": "agentic-app", "version": "0.1.0"}}"#,
    );
    assert_eq!(handle_initialize(&json("null")).to_value(), expected);
    assert_eq!(handle_initialize(&json(r#"{"protocolVersion": 1}"#)).to_value(), expected);
}

#[test]
fn a_blank_line_gets_no_response() {
    assert!(process_line("").is_none());
    assert!(process_line("   ").is_none());
}

#[test]
fn unparseable_json_gets_no_response() {
    assert!(process_line("not json").is_none());
}

#[test]
fn a_notification_with_no_id_gets_no_response() {
    let line = value(r#"{"jsonrpc": "2.0", "method": "notifications/initialized"}"#).to_string();
    assert!(process_line(&line).is_none());
}

#[test]
fn a_request_for_ping_gets_a_matching_response() {
    let line = value(r#"{"jsonrpc": "2.0", "id": 1, "method": "ping"}"#).to_string();
    let response = response(&line);
    assert_eq!(response["id"], 1);
    assert_eq!(response["result"], value("{}"));
}

#[test]
fn a_request_for_an_unknown_method_gets_a_json_rpc_error() {
    let line = value(r#"{"jsonrpc": "2.0", "id": 2, "method": "bogus"}"#).to_string();
    let response = response(&line);
    assert_eq!(response["id"], 2);
    assert_eq!(response["error"]["code"], -32601);
}

#[test]
fn a_string_id_round_trips_as_a_string() {
    let line = value(r#"{"jsonrpc": "2.0", "id": "abc", "method": "ping"}"#).to_string();
    let response = response(&line);
    assert_eq!(response["id"], "abc");
}

#[test]
fn responses_are_whole() {
    assert_eq!(
        response(r#"{"id": null, "method": "bogus"}"#),
        value(
            r#"{"jsonrpc": "2.0", "id": null,
                "error": {"code": -32601, "message": "method not found: bogus"}}"#
        )
    );
    assert_eq!(
        response(r#"{"id": [1]}"#),
        value(
            r#"{"jsonrpc": "2.0", "id": [1],
                "error": {"code": -32601, "message": "method not found: "}}"#
        )
    );
    assert_eq!(
        response(" \t{\"id\": 3, \"method\": \"initialize\", \"params\": {\"protocolVersion\": \"v\"}}\r\n"),
        value(
            r#"{"jsonrpc": "2.0", "id": 3,
                "result": {"protocolVersion": "v", "capabilities": {"tools": {}},
                           "serverInfo": {"name": "agentic-app", "version": "0.1.0"}}}"#
        )
    );
    assert_eq!(
        respond(json("9"), json("[]")).render(),
        r#"{"id":9,"jsonrpc":"2.0","result":[]}"#
    );
}

#[test]
fn what_needs_the_app_is_left_pending() {
    match process_line(r#"{"id": 4, "method": "tools/list"}"#) {
        Some(Pending::ListTools { id }) => assert_eq!(id.render(), "4"),
        other => panic!("{other:?}"),
    }
    match process_line(r#"{"id": 5, "method": "tools/call", "params": {"name": "a"}}"#) {
        Some(Pending::CallTool { id, params }) => {
            assert_eq!(id.render(), "5");
            assert_eq!(params.render(), r#"{"name":"a"}"#);
        }
        other => panic!("{other:?}"),
    }
    match process_line(r#"{"id": 6, "method": "tools/call"}"#) {
        Some(Pending::CallTool { id: _, params }) => assert_eq!(params.render(), "{}"),
        other => panic!("{other:?}"),
    }
    assert!(process_request(&json(r#"{"method": "tools/list"}"#)).is_none());
    assert!(process_request(&json("[1, 2]")).is_none());
}

#[test]
fn a_line_without_json_is_an_error_with_the_parsers_message() {
    assert!(read_line(" \u{a0}\u{3000}\r").unwrap().is_none());
    assert_eq!(read_line(" [1] ").unwrap().unwrap().render(), "[1]");
    for line in ["not json", "{", "[1] x"] {
        let expected = serde_json::from_str::<Value>(line).unwrap_err().to_string();
        assert_eq!(read_line(line).unwrap_err(), expected);
        assert_eq!(read_line(&format!("  {line}\t")).unwrap_err(), expected);
    }
}

/// The characters that are trimmed are those that `char::is_whitespace` names.
#[test]
fn blank_characters_are_those_of_unicode() {
    for c in '\0'..=char::MAX {
        let blank = matches!(read_line(c.encode_utf8(&mut [0; 4])), Ok(None));
        assert_eq!(blank, c.is_whitespace(), "{c:?}");
    }
}

#[test]
fn an_app_that_cannot_be_reached_has_no_tools() {
    let tools = handle_tools_list(&Err("refused".to_string()));
    assert_eq!(tools.to_value(), value(r#"{"tools": []}"#));
    for odd in ["{}", "[]", r#"{"actions": 1}"#] {
        assert_eq!(handle_tools_list(&Ok(json(odd))).to_value(), value(r#"{"tools": []}"#));
    }
}

#[test]
fn a_call_that_cannot_be_made_is_answered_with_an_error() {
    let error = |text: &str| {
        let mut expected = value(r#"{"content": [{"type": "text"}], "isError": true}"#);
        expected["content"][0]["text"] = Value::from(text);
        expected
    };
    let unreachable = Err("connection refused".to_string());
    assert_eq!(
        done(plan_tools_call(&json(r#"{"name": "a"}"#), &unreachable)),
        error("could not reach the app: connection refused")
    );
    let listed = Ok(json(
        r#"{"actions": [{"name": 1}, {"name": "a", "params": [{"name": "n"}]}]}"#,
    ));
    assert_eq!(
        done(plan_tools_call(&json(r#"{"name": "b"}"#), &listed)),
        error("no such action: b")
    );
    assert_eq!(done(plan_tools_call(&json("{}"), &listed)), error("no such action: "));
    assert_eq!(
        done(plan_tools_call(&json(r#"{"name": "a"}"#), &listed)),
        error("missing required argument: n")
    );
    assert_eq!(error_result("m").to_value(), error("m"));
}

#[test]
fn a_call_is_sent_with_the_method_of_the_first_action_of_its_name() {
    let listed = Ok(json(
        r#"{"actions": [{"name": "a", "method": "PUT", "path": "/one"},
                        {"name": "a", "method": "POST", "path": "/two"},
                        {"name": "b", "path": "/three"}]}"#,
    ));
    let request = sent(plan_tools_call(&json(r#"{"name": "a"}"#), &listed));
    assert_eq!((request.method.as_str(), request.target.as_str()), ("PUT", "/one"));
    let request = sent(plan_tools_call(&json(r#"{"name": "b", "arguments": {}}"#), &listed));
    assert_eq!((request.method.as_str(), request.target.as_str()), ("GET", "/three"));
    assert_eq!(request.body, "");
}

#[test]
fn a_call_is_answered_with_what_the_app_said() {
    let request = AppRequest {
        method: "POST".to_string(),
        target: "/m/a?x=1".to_string(),
        body: String::new(),
    };
    assert_eq!(
        finish_tools_call(&request, &Ok(json(r#"{"ok": [1, "two"]}"#))).to_value(),
        value(
            r#"{"content": [{"type": "text", "text": "{\"ok\":[1,\"two\"]}"}], "isError": false}"#
        )
    );
    assert_eq!(
        finish_tools_call(&request, &Err("timed out".to_string())).to_value(),
        value(
            r#"{"content": [{"type": "text", "text": "POST /m/a?x=1 failed: timed out"}],
                "isError": true}"#
        )
    );
}

const FLEET: &[Action] = &[
    Action {
        name: "find",
        method: "GET",
        path: "/find",
        description: "finds",
        params: &[
            Param { name: "q", kind: "string", location: ParamLocation::Query, description: "" },
            Param { name: "n", kind: "integer", location: ParamLocation::Query, description: "" },
        ],
    },
    Action {
        name: "assign",
        method: "POST",
        path: "/vehicle/{id}",
        description: "assigns",
        params: &[
            Param { name: "id", kind: "integer", location: ParamLocation::Path, description: "" },
            Param { name: "uids", kind: "string", location: ParamLocation::Body, description: "" },
        ],
    },
    Action {
        name: "stops",
        method: "GET",
        path: "/{id}/stops/",
        description: "lists stops",
        params: &[
            Param { name: "id", kind: "string", location: ParamLocation::Path, description: "" },
        ],
    },
    Action {
        name: "move",
        method: "POST",
        path: "/move/{from}/to/{to}",
        description: "moves",
        params: &[
            Param { name: "from", kind: "integer", location: ParamLocation::Path, description: "" },
            Param { name: "to", kind: "integer", location: ParamLocation::Path, description: "" },
        ],
    },
];

fn fleet() -> AgenticServer<u8> {
    AgenticServer::new("fleet-app", 0).register(ModuleRegistration {
        prefix: "fleet",
        actions: FLEET,
        dispatch: 1,
    })
}

/// What a client of the server's HTTP surface reads as the list of actions.
fn served_list() -> Result<Json, String> {
    match fleet().begin("GET", "/", "") {
        Step::Respond(reply) => Json::parse(&reply.body),
        Step::Forward(call) => panic!("{call:?}"),
    }
}

#[test]
fn the_tools_are_the_registered_actions() {
    let tools = handle_tools_list(&served_list()).to_value();
    let tools = tools["tools"].as_array().unwrap();
    assert_eq!(tools.len(), 4);
    assert_eq!(tools[0]["name"], "fleet.find");
    assert_eq!(tools[0]["description"], "finds (GET /fleet/find)");
    assert_eq!(tools[0]["inputSchema"]["required"], value(r#"["q", "n"]"#));
    assert_eq!(tools[1]["name"], "fleet.assign");
    assert_eq!(tools[1]["inputSchema"]["properties"]["id"]["type"], "integer");
}

#[test]
fn a_tool_call_reaches_its_action_with_its_query_arguments() {
    let call = json(r#"{"name": "fleet.find", "arguments": {"q": "a&b = c+d? é€", "n": 3}}"#);
    let request = sent(plan_tools_call(&call, &served_list()));
    assert_eq!(request.target, "/fleet/find?q=a%26b%20%3D%20c%2Bd%3F%20%C3%A9%E2%82%AC&n=3");
    let (path, query) = split_target(&request.target);
    assert_eq!(path, "/fleet/find");
    assert_eq!(
        parse_query_string(&query),
        vec![
            ("q".to_string(), "a&b = c+d? é€".to_string()),
            ("n".to_string(), "3".to_string()),
        ]
    );
    match fleet().begin(&request.method, &request.target, &request.body) {
        Step::Forward(routed) => assert_eq!(routed.action_name, "find"),
        Step::Respond(reply) => panic!("{reply:?}"),
    }
}

#[test]
fn a_tool_call_reaches_its_action_with_its_path_and_body_arguments() {
    let call = json(r#"{"name": "fleet.assign", "arguments": {"id": 42, "uids": ["a", "b"]}}"#);
    let request = sent(plan_tools_call(&call, &served_list()));
    assert_eq!(request.method, "POST");
    match fleet().begin(&request.method, &request.target, &request.body) {
        Step::Forward(routed) => {
            assert_eq!(routed.action_name, "assign");
            assert_eq!(routed.path_param.as_deref(), Some("42"));
            assert_eq!(value(&routed.body), value(r#"{"uids": ["a", "b"]}"#));
        }
        Step::Respond(reply) => panic!("{reply:?}"),
    }
}

#[test]
fn a_call_of_a_get_action_sends_no_body() {
    assert!(FLEET[0].is_valid());
    let call = json(r#"{"name": "fleet.find", "arguments": {"q": [], "n": {}, "uids": 1}}"#);
    let request = sent(plan_tools_call(&call, &served_list()));
    assert_eq!(request.method, "GET");
    assert_eq!(request.body, "");
}

#[test]
fn a_tool_call_reaches_an_action_whose_path_starts_with_its_placeholder() {
    let call = json(r#"{"name": "fleet.stops", "arguments": {"id": "v 7"}}"#);
    let request = sent(plan_tools_call(&call, &served_list()));
    assert_eq!(request.target, "/fleet/v 7/stops/");
    match fleet().begin(&request.method, &request.target, &request.body) {
        Step::Forward(routed) => {
            assert_eq!(routed.action_name, "stops");
            assert_eq!(routed.path_param.as_deref(), Some("v 7"));
        }
        Step::Respond(reply) => panic!("{reply:?}"),
    }
}

#[test]
fn a_body_is_empty_exactly_where_no_argument_travels_in_it() {
    let action = json(r#"{"path": "/x", "params": [{"name": "b", "location": "body"}]}"#);
    let (_, body) = build_request(&action, &json(r#"{"b": null}"#)).unwrap();
    assert_eq!(body, r#"{"b":null}"#);
    let (_, body) = build_request(&json(r#"{"path": "/x"}"#), &json(r#"{"b": 1}"#)).unwrap();
    assert_eq!(body, "");
}

#[test]
fn a_tool_call_reaches_an_action_with_two_placeholders() {
    let call = json(r#"{"name": "fleet.move", "arguments": {"from": 1, "to": -2}}"#);
    let request = sent(plan_tools_call(&call, &served_list()));
    assert_eq!(request.target, "/fleet/move/1/to/-2");
    match fleet().begin(&request.method, &request.target, &request.body) {
        Step::Forward(routed) => {
            assert_eq!(routed.action_name, "move");
            assert_eq!(routed.path_param.as_deref(), Some("1/to/-2"));
        }
        Step::Respond(reply) => panic!("{reply:?}"),
    }
}
