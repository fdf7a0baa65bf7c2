use gpui_agentic_http::registry::{
    assert_registry_routable, Action, ModuleRegistration, Param, ParamLocation,
};

const ACTIONS: &[Action] = &[
    Action {
        name: "ping",
        method: "GET",
        path: "/ping",
        description: "returns pong",
        params: &[],
    },
    Action {
        name: "greet",
        method: "GET",
        path: "/greet",
        description: "greets a name",
        params: &[Param {
            name: "name",
            kind: "string",
            location: ParamLocation::Query,
            description: "who to greet",
        }],
    },
];

#[derive(Default)]
struct FakeApp {
    called: Option<&'static str>,
}

fn dispatch(
    app: &mut FakeApp,
    name: &str,
    _path: Option<&str>,
    _query: &str,
    _body: &str,
) -> serde_json::Value {
    match name {
        "ping" => {
            app.called = Some("ping");
            serde_json::Value::from("pong")
        }
        "greet" => {
            app.called = Some("greet");
            serde_json::Value::from("hello")
        }
        _ => serde_json::Value::from("unrouted"),
    }
}

/// A stand-in for a consumer's own parser: it recognises the two names that
/// `ACTIONS` declares.
fn fake_is_routable(action: &Action) -> bool {
    matches!(action.name, "ping" | "greet")
}

const BAD: Action = Action {
    name: "bad",
    method: "GET",
    path: "/bad",
    description: "wrong on purpose",
    params: &[Param {
        name: "x",
        kind: "string",
        location: ParamLocation::Body,
        description: "should have been Query",
    }],
};

#[test]
fn a_get_action_with_a_body_param_is_invalid() {
    assert!(!BAD.is_valid());
}

#[test]
fn a_get_action_with_a_query_param_is_valid() {
    assert!(ACTIONS[1].is_valid());
}

#[test]
fn a_post_action_may_take_a_body_param() {
    let action = Action { method: "POST", ..BAD };
    assert!(action.is_valid());
}

#[test]
fn the_method_is_compared_exactly() {
    let action = Action { method: "get", ..BAD };
    assert!(action.is_valid());
}

#[test]
fn a_fully_routed_registry_passes_the_drift_assertion() {
    let registration = ModuleRegistration {
        prefix: "fake",
        actions: ACTIONS,
        dispatch,
    };
    assert_registry_routable(&registration, fake_is_routable).unwrap();
    let mut app = FakeApp::default();
    (registration.dispatch)(&mut app, "greet", None, "", "");
    assert_eq!(app.called, Some("greet"));
}

const UNROUTABLE_ACTIONS: &[Action] = &[Action {
    name: "ghost",
    method: "GET",
    path: "/ghost",
    description: "declared but never recognised by is_routable",
    params: &[],
}];

#[test]
#[should_panic(expected = "is declared in `actions` but `is_routable` does not recognise it")]
fn an_unroutable_action_fails_the_drift_assertion() {
    let registration = ModuleRegistration {
        prefix: "fake",
        actions: UNROUTABLE_ACTIONS,
        dispatch,
    };
    if let Err(message) = assert_registry_routable(&registration, fake_is_routable) {
        panic!("{message}");
    }
}

#[test]
fn an_unroutable_action_is_named_in_full() {
    let registration = ModuleRegistration {
        prefix: "fake",
        actions: UNROUTABLE_ACTIONS,
        dispatch,
    };
    assert_eq!(
        assert_registry_routable(&registration, fake_is_routable).unwrap_err(),
        "fake.ghost is declared in `actions` but `is_routable` does not recognise it -- \
         a capability an agent is told exists must actually be parseable, not silently absent"
    );
}

const INVALID_ACTIONS: &[Action] = &[BAD];

#[test]
fn an_invalid_action_fails_before_its_routing_is_asked() {
    let registration = ModuleRegistration {
        prefix: "fake",
        actions: INVALID_ACTIONS,
        dispatch,
    };
    assert_eq!(
        assert_registry_routable(&registration, |_: &Action| false).unwrap_err(),
        "fake.bad: a GET action's params must all be Path/Query, never Body \
         (found a Body param) -- curl -d cannot express a GET body without \
         an explicit -X GET override, and nothing in the registry would \
         tell an agent to expect one"
    );
}

#[test]
fn locations_have_lower_case_names() {
    assert_eq!(ParamLocation::Path.as_str(), "path");
    assert_eq!(ParamLocation::Query.as_str(), "query");
    assert_eq!(ParamLocation::Body.as_str(), "body");
}
