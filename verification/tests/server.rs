use gpui_agentic_http::json::Json;
use gpui_agentic_http::registry::{Action, ModuleRegistration, Param, ParamLocation};
use gpui_agentic_http::server::{split_target, AgenticServer, Outcome, Reply, Step};

struct FakeApp;

type Dispatch = fn(&mut FakeApp, &str, Option<&str>, &str, &str) -> serde_json::Value;

fn dispatch(
    _app: &mut FakeApp,
    name: &str,
    _p: Option<&str>,
    _q: &str,
    _b: &str,
) -> serde_json::Value {
    serde_json::Value::from(name)
}

const ACTIONS: &[Action] = &[
    Action {
        name: "state",
        method: "GET",
        path: "/state",
        description: "d",
        params: &[],
    },
    Action {
        name: "select_vehicle",
        method: "POST",
        path: "/select-vehicle/{id}",
        description: "d",
        params: &[Param {
            name: "id",
            kind: "integer",
            location: ParamLocation::Path,
            description: "d",
        }],
    },
];

fn server() -> AgenticServer<Dispatch> {
    AgenticServer::new("fake-app", 0).register(ModuleRegistration {
        prefix: "fleet",
        actions: ACTIONS,
        dispatch: dispatch as Dispatch,
    })
}

const fn flat(name: &'static str, method: &'static str, path: &'static str) -> Action {
    Action { name, method, path, description: "", params: &[] }
}

/// A server with one module, whose handle is a number.
fn one(prefix: &'static str, actions: &'static [Action]) -> AgenticServer<u8> {
    AgenticServer::new("one", 7331).register(ModuleRegistration { prefix, actions, dispatch: 7 })
}

fn value(text: &str) -> serde_json::Value {
    serde_json::from_str(text).unwrap()
}

fn reply(step: Step<u8>) -> Reply {
    match step {
        Step::Respond(reply) => reply,
        Step::Forward(call) => panic!("forwarded to {}", call.action_name),
    }
}

#[test]
fn a_prefixed_flat_action_routes() {
    let call = server()
        .route("GET", "/fleet/state", "", "")
        .expect("must route");
    assert_eq!(call.action_name, "state");
}

#[test]
fn a_prefixed_path_param_action_routes_and_carries_the_param() {
    let call = server()
        .route("POST", "/fleet/select-vehicle/42", "", "")
        .expect("must route");
    assert_eq!(call.action_name, "select_vehicle");
    assert_eq!(call.path_param.as_deref(), Some("42"));
}

#[test]
fn the_wrong_prefix_does_not_route() {
    assert!(server().route("GET", "/other/state", "", "").is_none());
}

#[test]
fn the_wrong_method_does_not_route() {
    assert!(server().route("POST", "/fleet/state", "", "").is_none());
}

#[test]
fn an_unknown_action_under_a_real_prefix_does_not_route() {
    assert!(server().route("GET", "/fleet/unknown", "", "").is_none());
}

#[test]
fn a_call_carries_the_raw_query_the_body_and_the_handle() {
    let call = server()
        .route("GET", "/fleet/state", "a=%20&b", "{\"x\": 1}")
        .unwrap();
    assert_eq!(call.path_param, None);
    assert_eq!(call.query, "a=%20&b");
    assert_eq!(call.body, "{\"x\": 1}");
    let answer = (call.dispatch)(&mut FakeApp, call.action_name, None, &call.query, &call.body);
    assert_eq!(answer, "state");
}

#[test]
fn a_path_param_must_not_be_empty_but_may_hold_slashes() {
    assert!(server().route("POST", "/fleet/select-vehicle/", "", "").is_none());
    assert!(server().route("POST", "/fleet/select-vehicle", "", "").is_none());
    assert!(server().route("POST", "/fleet/select-vehicle42", "", "").is_none());
    let call = server().route("POST", "/fleet/select-vehicle/4/2", "", "").unwrap();
    assert_eq!(call.path_param.as_deref(), Some("4/2"));
}

#[test]
fn a_prefix_counts_as_a_whole_segment() {
    assert!(server().route("GET", "/fleetstate", "", "").is_none());
    assert!(server().route("GET", "/fleet2/state", "", "").is_none());
    assert!(server().route("GET", "fleet/state", "", "").is_none());
    assert!(server().route("GET", "/fleet", "", "").is_none());
    assert!(server().route("GET", "", "", "").is_none());
    assert!(server().route("GET", "/fleet/state/", "", "").is_none());
}

#[test]
fn the_index_is_no_action_even_under_an_empty_prefix() {
    const ROOT: &[Action] = &[flat("root", "GET", "/")];
    let server = one("", ROOT);
    assert!(server.route("GET", "/", "", "").is_none());
    assert_eq!(server.route("GET", "//", "", "").unwrap().action_name, "root");
    assert!(server.route("POST", "/", "", "").is_none());
}

#[test]
fn the_first_action_that_matches_answers() {
    const SAME: &[Action] = &[
        flat("other_method", "POST", "/x/{id}"),
        flat("first", "GET", "/x/{id}"),
        flat("second", "GET", "/x/fixed"),
    ];
    let call = one("m", SAME).route("GET", "/m/x/fixed", "", "").unwrap();
    assert_eq!(call.action_name, "first");
    assert_eq!(call.path_param.as_deref(), Some("fixed"));
    assert_eq!(call.dispatch, 7);
}

#[test]
fn modules_are_kept_apart_by_their_prefixes() {
    const A: &[Action] = &[flat("a", "GET", "/go")];
    const B: &[Action] = &[flat("b", "GET", "/go")];
    let server = AgenticServer::new("two", 0)
        .register(ModuleRegistration { prefix: "one", actions: A, dispatch: 1u8 })
        .register(ModuleRegistration { prefix: "two", actions: B, dispatch: 2u8 });
    assert_eq!(server.route("GET", "/one/go", "", "").unwrap().dispatch, 1);
    assert_eq!(server.route("GET", "/two/go", "", "").unwrap().dispatch, 2);
    assert!(server.has_prefix("one") && server.has_prefix("two"));
    assert!(!server.has_prefix("on") && !server.has_prefix(""));
}

#[test]
fn a_placeholder_may_stand_anywhere_in_a_path() {
    const PLACED: &[Action] = &[
        flat("tail", "GET", "/tail/{id}/more"),
        flat("glued", "GET", "/glued{id}"),
        flat("named", "GET", "/file/{name}.txt"),
        flat("only", "GET", "/{id}"),
    ];
    let server = one("p", PLACED);
    let found = |path: &str| {
        let call = server.route("GET", path, "", "")?;
        Some((call.action_name, call.path_param.unwrap()))
    };
    let expect = |name: &'static str, param: &str| Some((name, param.to_string()));
    assert_eq!(found("/p/42"), expect("only", "42"));
    assert_eq!(found("/p//42"), expect("only", "/42"));
    assert_eq!(found("/p/"), None);
    assert_eq!(found("/p/glued42"), expect("glued", "42"));
    assert_eq!(found("/p/glued/42"), expect("glued", "/42"));
    assert_eq!(found("/p/glued"), expect("only", "glued"));
    assert_eq!(found("/p/tail/42/more"), expect("tail", "42"));
    assert_eq!(found("/p/tail/42"), expect("only", "tail/42"));
    assert_eq!(found("/p/tail//more"), expect("only", "tail//more"));
    assert_eq!(found("/p/file/a.b.txt"), expect("named", "a.b"));
    assert_eq!(found("/p/file/.txt"), expect("only", "file/.txt"));
}

/// With more than one placeholder the param is all from the first one on.
#[test]
fn a_path_with_two_placeholders_has_one_param() {
    const TWO: &[Action] = &[
        flat("two", "GET", "/a/{x}/b/{y}"),
        flat("unclosed", "GET", "/u/{x}/b/{y"),
    ];
    let server = one("p", TWO);
    let found = |path: &str| server.route("GET", path, "", "").map(|c| c.path_param.unwrap());
    assert_eq!(found("/p/a/1/b/2").as_deref(), Some("1/b/2"));
    assert_eq!(found("/p/a/1").as_deref(), Some("1"));
    assert_eq!(found("/p/a/{x}/b/{y}").as_deref(), Some("{x}/b/{y}"));
    assert_eq!(found("/p/a/"), None);
    assert_eq!(found("/p/u/1/b/{y").as_deref(), Some("1"));
    assert_eq!(found("/p/u/1/b/2"), None);
}

#[test]
fn registering_changes_no_earlier_route() {
    const FIRST: &[Action] = &[flat("first", "GET", "/b/{x}")];
    const LATER: &[Action] = &[flat("later", "GET", "/{x}")];
    let server = one("a", FIRST).register(ModuleRegistration {
        prefix: "a/b",
        actions: LATER,
        dispatch: 8,
    });
    let call = server.route("GET", "/a/b/c", "", "").unwrap();
    assert_eq!((call.action_name, call.dispatch), ("first", 7));
}

/// What stands before and after a placeholder may not overlap.
#[test]
fn front_and_back_of_a_path_are_kept_apart() {
    const MIRRORED: &[Action] = &[flat("m", "GET", "/aba{x}aba")];
    let server = one("p", MIRRORED);
    assert!(server.route("GET", "/p/ababa", "", "").is_none());
    assert!(server.route("GET", "/p/abaaba", "", "").is_none());
    let call = server.route("GET", "/p/aba-aba", "", "").unwrap();
    assert_eq!(call.path_param.as_deref(), Some("-"));
}

#[test]
fn a_path_without_a_placeholder_answers_as_it_is_listed() {
    const FLAT: &[Action] = &[
        flat("slash", "GET", "/state/"),
        flat("slashes", "GET", "/state//"),
        flat("root", "GET", "/"),
        flat("open", "GET", "/open{brace"),
        flat("closed", "GET", "/close}d{"),
    ];
    let server = one("fleet", FLAT);
    let listed = server.capabilities_json().to_value();
    for (i, action) in FLAT.iter().enumerate() {
        let path = listed["actions"][i]["path"].as_str().unwrap();
        assert_eq!(path, format!("/fleet{}", action.path));
        let call = server.route("GET", path, "", "").unwrap();
        assert_eq!(call.action_name, action.name);
        assert_eq!(call.path_param, None);
    }
    assert!(server.route("GET", "/fleet/state", "", "").is_none());
    assert!(server.route("GET", "/fleet/open", "", "").is_none());
}

/// The server asks for a slash behind the prefix in any case.
#[test]
fn a_path_that_starts_without_a_slash_is_requested_behind_one() {
    const BARE: &[Action] = &[flat("bare", "GET", "bare")];
    let server = one("p", BARE);
    assert_eq!(server.route("GET", "/p/bare", "", "").unwrap().action_name, "bare");
    assert!(server.route("GET", "/pbare", "", "").is_none());
}

#[test]
fn the_list_of_actions_describes_every_module() {
    let expected = value(
        r#"{
            "app": "fake-app",
            "actions": [
                {"name": "fleet.state", "method": "GET", "path": "/fleet/state",
                 "description": "d", "params": []},
                {"name": "fleet.select_vehicle", "method": "POST",
                 "path": "/fleet/select-vehicle/{id}", "description": "d",
                 "params": [{"name": "id", "kind": "integer", "location": "path",
                             "description": "d"}]}
            ]
        }"#,
    );
    assert_eq!(server().capabilities_json().to_value(), expected);
}

#[test]
fn a_path_that_repeats_its_prefix_is_listed_with_it_twice() {
    const TWICE: &[Action] = &[flat("state", "GET", "/map/state")];
    let server = one("map", TWICE);
    let listed = server.capabilities_json().to_value();
    assert_eq!(listed["actions"][0]["path"], "/map/map/state");
    assert!(server.route("GET", "/map/state", "", "").is_none());
    assert!(server.route("GET", "/map/map/state", "", "").is_some());
}

#[test]
fn registering_appends_to_the_list() {
    const A: &[Action] = &[flat("a", "GET", "/a"), flat("b", "GET", "/b")];
    const C: &[Action] = &[flat("c", "GET", "/c")];
    let server = AgenticServer::new("two", 0)
        .register(ModuleRegistration { prefix: "m", actions: A, dispatch: 1u8 })
        .register(ModuleRegistration { prefix: "n", actions: C, dispatch: 2u8 });
    let listed = server.capabilities_json().to_value();
    let names: Vec<&str> = listed["actions"]
        .as_array()
        .unwrap()
        .iter()
        .map(|action| action["name"].as_str().unwrap())
        .collect();
    assert_eq!(names, vec!["m.a", "m.b", "n.c"]);
}

#[test]
fn a_server_knows_its_name_and_port() {
    let server: AgenticServer<u8> = AgenticServer::new("named", 7339);
    assert_eq!(server.app_name(), "named");
    assert_eq!(server.port(), 7339);
    assert_eq!(
        server.capabilities_json().to_value(),
        value(r#"{"app": "named", "actions": []}"#)
    );
}

#[test]
fn a_target_is_cut_at_its_first_question_mark() {
    let parts = |target: &str| split_target(target);
    assert_eq!(parts("/a?b=c?d"), ("/a".to_string(), "b=c?d".to_string()));
    assert_eq!(parts("/a"), ("/a".to_string(), String::new()));
    assert_eq!(parts("?"), (String::new(), String::new()));
    assert_eq!(parts(""), (String::new(), String::new()));
}

const PING: &[Action] = &[flat("ping", "GET", "/ping")];

#[test]
fn the_index_is_answered_with_the_list_of_actions() {
    for target in ["/", "/?", "/?x=1"] {
        let reply = reply(one("m", PING).begin("GET", target, ""));
        assert_eq!(reply.status, 200);
        assert!(reply.json);
        assert_eq!(
            reply.body,
            "{\"actions\":[{\"description\":\"\",\"method\":\"GET\",\"name\":\"m.ping\",\
             \"params\":[],\"path\":\"/m/ping\"}],\"app\":\"one\"}"
        );
    }
}

#[test]
fn an_unanswered_request_is_not_found() {
    for (method, target) in [("POST", "/"), ("GET", "/m/nothing"), ("GET", "")] {
        let reply = reply(one("m", PING).begin(method, target, ""));
        assert_eq!(reply.status, 404);
        assert!(!reply.json);
        assert_eq!(reply.body, "not found");
    }
}

#[test]
fn an_answered_request_is_forwarded_with_its_query() {
    match one("m", PING).begin("GET", "/m/ping?a=b?c", "body") {
        Step::Forward(call) => {
            assert_eq!(call.action_name, "ping");
            assert_eq!(call.query, "a=b?c");
            assert_eq!(call.body, "body");
            assert_eq!(call.dispatch, 7);
        }
        Step::Respond(reply) => panic!("answered {}", reply.status),
    }
}

#[test]
fn an_app_that_takes_no_calls_is_shutting_down() {
    let reply = one("m", PING).finish(Outcome::Refused);
    assert_eq!(reply.status, 503);
    assert!(!reply.json);
    assert_eq!(reply.body, "one is shutting down");
}

#[test]
fn a_dropped_call_is_answered_with_an_error() {
    let reply = one("m", PING).finish(Outcome::Unanswered);
    assert_eq!(reply.status, 200);
    assert!(reply.json);
    assert_eq!(reply.body, "{\"error\":\"no reply\"}");
}

#[test]
fn an_answer_is_sent_as_it_is() {
    let answer = Json::parse(r#"{"b": [1, -2.5, "x\ny"], "a": null}"#).unwrap();
    let reply = one("m", PING).finish(Outcome::Answered(answer));
    assert_eq!(reply.status, 200);
    assert!(reply.json);
    assert_eq!(reply.body, "{\"a\":null,\"b\":[1,-2.5,\"x\\ny\"]}");
}
