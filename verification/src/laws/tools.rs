//! The tools of an app are its registered actions, and nothing else.

use crate::json::JsonTree;
use crate::laws::json::{list_under, text_under, tree_under};
use crate::mcp::{
    input_schema, is_schema_type, param_name, properties_tree, property_tree, schema_type, tool_tree,
    tools_list_tree, tools_of,
};
use crate::registry::{qualified_name, Action, ModuleRegistration, Param, ParamLocation};
use crate::server::{
    action_tree, capabilities, full_path, module_trees, modules_trees, param_tree, ServerState,
};
use vstd::prelude::*;

verus! {

/// The fields of a listed param.
pub proof fn lemma_param_fields(param: Param)
    ensures
        param_tree(param).at("name"@) == JsonTree::Text(param.name@),
        param_tree(param).at("kind"@) == JsonTree::Text(param.kind@),
        param_tree(param).at("location"@) == JsonTree::Text(param.location.wire_name()),
        param_tree(param).at("description"@) == JsonTree::Text(param.description@),
{
    reveal_strlit("name");
    reveal_strlit("kind");
    reveal_strlit("location");
    reveal_strlit("description");
    assert("name"@.len() == 4 && "kind"@.len() == 4 && "location"@.len() == 8
        && "description"@.len() == 11);
    assert("name"@[0] == 'n' && "kind"@[0] == 'k');
}

/// The fields of a listed action.
pub proof fn lemma_action_fields(prefix: Seq<char>, action: Action)
    ensures
        action_tree(prefix, action).at("name"@) == JsonTree::Text(
            qualified_name(prefix, action.name@),
        ),
        action_tree(prefix, action).at("method"@) == JsonTree::Text(action.method@),
        action_tree(prefix, action).at("path"@) == JsonTree::Text(full_path(prefix, action.path@)),
        action_tree(prefix, action).at("description"@) == JsonTree::Text(action.description@),
        action_tree(prefix, action).at("params"@).items() == action.params@.map_values(
            |param: Param| param_tree(param),
        ),
{
    reveal_strlit("name");
    reveal_strlit("method");
    reveal_strlit("path");
    reveal_strlit("description");
    reveal_strlit("params");
    assert("name"@.len() == 4 && "method"@.len() == 6 && "path"@.len() == 4 && "description"@.len()
        == 11 && "params"@.len() == 6);
    assert("name"@[0] == 'n' && "path"@[0] == 'p' && "method"@[0] == 'm' && "params"@[0] == 'p');
}

/// The fields of a tool.
proof fn lemma_tool_fields(action: JsonTree)
    ensures
        tool_tree(action).at("name"@) == action.at("name"@),
        tool_tree(action).at("inputSchema"@) == input_schema(action.at("params"@).items()),
{
    reveal_strlit("name");
    reveal_strlit("description");
    reveal_strlit("inputSchema");
    assert("name"@.len() == 4 && "description"@.len() == 11 && "inputSchema"@.len() == 11);
    assert("description"@[0] == 'd' && "inputSchema"@[0] == 'i');
}

/// The fields of a schema.
proof fn lemma_schema_fields(params: Seq<JsonTree>)
    ensures
        input_schema(params).at("properties"@) == JsonTree::Record(properties_tree(params)),
        input_schema(params).at("required"@).items() == params.map_values(
            |param: JsonTree| JsonTree::Text(param_name(param)),
        ),
{
    reveal_strlit("type");
    reveal_strlit("properties");
    reveal_strlit("required");
    assert("type"@.len() == 4 && "properties"@.len() == 10 && "required"@.len() == 8);
}

/// Where the list of actions names action `a` of module `m`.
pub open spec fn listing_position<D>(modules: Seq<ModuleRegistration<D>>, m: int, a: int) -> int {
    modules_trees(modules.take(m)).len() + a
}

/// Module `m` is registered and has an action `a`.
pub open spec fn is_registered<D>(modules: Seq<ModuleRegistration<D>>, m: int, a: int) -> bool {
    0 <= m < modules.len() && 0 <= a < modules[m].actions@.len()
}

/// Every registered action is listed, at its place in the order of
/// registration.
pub proof fn law_every_action_is_listed<D>(modules: Seq<ModuleRegistration<D>>, m: int, a: int)
    requires
        is_registered(modules, m, a),
    ensures
        0 <= listing_position(modules, m, a) < modules_trees(modules).len(),
        modules_trees(modules)[listing_position(modules, m, a)] == action_tree(
            modules[m].prefix@,
            modules[m].actions@[a],
        ),
    decreases modules.len(),
{
    let shorter = modules.drop_last();
    if m == shorter.len() {
        assert(modules.take(m) =~= shorter);
    } else {
        assert(shorter.take(m) =~= modules.take(m));
        law_every_action_is_listed(shorter, m, a);
        assert(modules_trees(modules)[listing_position(modules, m, a)] == modules_trees(
            shorter,
        )[listing_position(modules, m, a)]);
    }
}

/// Nothing is listed but registered actions.
pub proof fn law_every_listing_is_an_action<D>(modules: Seq<ModuleRegistration<D>>, i: int)
    requires
        0 <= i < modules_trees(modules).len(),
    ensures
        exists|m: int, a: int| #[trigger]
            is_registered(modules, m, a) && listing_position(modules, m, a) == i,
    decreases modules.len(),
{
    let shorter = modules.drop_last();
    let before = modules_trees(shorter).len();
    let last = modules.len() - 1;
    if i < before {
        law_every_listing_is_an_action(shorter, i);
        let (m, a) = choose|m: int, a: int| #[trigger]
            is_registered(shorter, m, a) && listing_position(shorter, m, a) == i;
        assert(shorter.take(m) =~= modules.take(m));
        assert(is_registered(modules, m, a));
    } else {
        assert(modules.take(last) =~= shorter);
        assert(is_registered(modules, last, i - before));
    }
}

/// A tool stands for each registered action, at the action's place in the
/// list, under its qualified name and with a schema of its params.
pub proof fn law_every_action_is_a_tool<D>(state: ServerState<D>, m: int, a: int)
    requires
        is_registered(state.modules, m, a),
    ensures
        ({
            let tools = tools_of(Ok::<JsonTree, Seq<char>>(capabilities(state)));
            let at = listing_position(state.modules, m, a);
            let module = state.modules[m];
            let action = module.actions@[a];
            &&& tools.len() == modules_trees(state.modules).len()
            &&& 0 <= at < tools.len()
            &&& tools[at] == tool_tree(action_tree(module.prefix@, action))
            &&& tools[at].at("name"@) == JsonTree::Text(
                qualified_name(module.prefix@, action.name@),
            )
            &&& tools[at].at("inputSchema"@) == input_schema(
                action.params@.map_values(|param: Param| param_tree(param)),
            )
        }),
{
    let tree = action_tree(state.modules[m].prefix@, state.modules[m].actions@[a]);
    law_every_action_is_listed(state.modules, m, a);
    lemma_tool_fields(tree);
    lemma_action_fields(state.modules[m].prefix@, state.modules[m].actions@[a]);
}

/// A module that registers adds its own tools at the end, and changes no
/// other: a capability that is added to the app is a tool by that alone.
pub proof fn law_registering_adds_tools<D>(
    state: ServerState<D>,
    registration: ModuleRegistration<D>,
    grown: ServerState<D>,
)
    requires
        grown.modules == state.modules.push(registration),
    ensures
        tools_of(Ok::<JsonTree, Seq<char>>(capabilities(grown))) == tools_of(
            Ok::<JsonTree, Seq<char>>(capabilities(state)),
        ) + module_trees(registration).map_values(|action: JsonTree| tool_tree(action)),
{
    assert(grown.modules.drop_last() =~= state.modules);
    assert(tools_of(Ok::<JsonTree, Seq<char>>(capabilities(grown))) =~= tools_of(
        Ok::<JsonTree, Seq<char>>(capabilities(state)),
    ) + module_trees(registration).map_values(|action: JsonTree| tool_tree(action)));
}

/// The schema type of a kind is one that a schema knows, whatever the kind.
pub proof fn law_schema_type_is_known(kind: Seq<char>)
    ensures
        is_schema_type(schema_type(kind)),
        is_schema_type(kind) ==> schema_type(kind) == kind,
{
}

/// Each param is a property of the schema and a required one, and there is no
/// other property.
pub proof fn law_schema_has_every_param(params: Seq<JsonTree>, name: Seq<char>)
    ensures
        ({
            let required = input_schema(params).at("required"@).items();
            &&& input_schema(params).at("properties"@).field(name) is Some <==> exists|i: int|
                0 <= i < params.len() && param_name(#[trigger] params[i]) == name
            &&& input_schema(params).at("properties"@).field(name) is Some
                <==> required.contains(JsonTree::Text(name))
        }),
{
    lemma_schema_fields(params);
    lemma_properties(params, name);
    let required = input_schema(params).at("required"@).items();
    if required.contains(JsonTree::Text(name)) {
        let i = required.index_of(JsonTree::Text(name));
        assert(required[i] == JsonTree::Text(param_name(params[i])));
    }
    if exists|i: int| 0 <= i < params.len() && param_name(#[trigger] params[i]) == name {
        let i = choose|i: int| 0 <= i < params.len() && param_name(#[trigger] params[i]) == name;
        assert(required[i] == JsonTree::Text(name));
    }
}

proof fn lemma_properties(params: Seq<JsonTree>, name: Seq<char>)
    ensures
        properties_tree(params).contains_key(name) <==> exists|i: int|
            0 <= i < params.len() && param_name(#[trigger] params[i]) == name,
    decreases params.len(),
{
    if params.len() > 0 {
        let shorter = params.drop_last();
        lemma_properties(shorter, name);
        if exists|i: int| 0 <= i < shorter.len() && param_name(#[trigger] shorter[i]) == name {
            let i = choose|i: int|
                0 <= i < shorter.len() && param_name(#[trigger] shorter[i]) == name;
            assert(params[i] == shorter[i]);
        }
        if exists|i: int| 0 <= i < params.len() && param_name(#[trigger] params[i]) == name {
            let i = choose|i: int| 0 <= i < params.len() && param_name(#[trigger] params[i]) == name;
            if i < shorter.len() {
                assert(params[i] == shorter[i]);
            }
        }
        if param_name(params.last()) == name {
            assert(param_name(params[params.len() - 1]) == name);
        }
    }
}

/// A tool says nothing of where its arguments travel: two runs of params that
/// differ in their locations alone have the same schema.
pub proof fn law_schema_ignores_locations(params: Seq<JsonTree>, others: Seq<JsonTree>)
    requires
        params.len() == others.len(),
        forall|i: int|
            0 <= i < params.len() ==> {
                &&& (#[trigger] params[i]).at("name"@) == others[i].at("name"@)
                &&& params[i].at("kind"@) == others[i].at("kind"@)
                &&& params[i].at("description"@) == others[i].at("description"@)
            },
    ensures
        input_schema(params) == input_schema(others),
{
    lemma_same_properties(params, others);
    assert(params.map_values(|param: JsonTree| JsonTree::Text(param_name(param)))
        =~= others.map_values(|param: JsonTree| JsonTree::Text(param_name(param))));
}

proof fn lemma_same_properties(params: Seq<JsonTree>, others: Seq<JsonTree>)
    requires
        params.len() == others.len(),
        forall|i: int|
            0 <= i < params.len() ==> {
                &&& (#[trigger] params[i]).at("name"@) == others[i].at("name"@)
                &&& params[i].at("kind"@) == others[i].at("kind"@)
                &&& params[i].at("description"@) == others[i].at("description"@)
            },
    ensures
        properties_tree(params) == properties_tree(others),
    decreases params.len(),
{
    if params.len() > 0 {
        lemma_same_properties(params.drop_last(), others.drop_last());
        let last = params.len() - 1;
        assert(property_tree(params[last]) == property_tree(others[last]));
        assert(param_name(params[last]) == param_name(others[last]));
    }
}

/// The object has exactly these keys.
pub open spec fn has_keys(tree: JsonTree, keys: Set<Seq<char>>) -> bool {
    tree is Record && tree->Record_0.dom() == keys
}

/// A listed param says its name, kind, location and description, and nothing
/// else.
pub proof fn law_listed_param_describes_the_param(param: Param)
    ensures
        has_keys(param_tree(param), set!["name"@, "kind"@, "location"@, "description"@]),
        param_tree(param).field("name"@) == Some(JsonTree::Text(param.name@)),
        param_tree(param).field("kind"@) == Some(JsonTree::Text(param.kind@)),
        param_tree(param).field("location"@) == Some(
            JsonTree::Text(
                match param.location {
                    ParamLocation::Path => "path"@,
                    ParamLocation::Query => "query"@,
                    ParamLocation::Body => "body"@,
                },
            ),
        ),
        param_tree(param).field("description"@) == Some(JsonTree::Text(param.description@)),
{
    lemma_param_fields(param);
    assert(param_tree(param)->Record_0.dom() =~= set![
        "name"@,
        "kind"@,
        "location"@,
        "description"@,
    ]);
}

/// A listed action says its name behind its module's prefix and a dot, its
/// method, its path behind a slash and the prefix, its description and each of
/// its params in order, and nothing else.
pub proof fn law_listed_action_describes_the_action(prefix: Seq<char>, action: Action)
    ensures
        has_keys(
            action_tree(prefix, action),
            set!["name"@, "method"@, "path"@, "description"@, "params"@],
        ),
        action_tree(prefix, action).field("name"@) == Some(
            JsonTree::Text(prefix + seq!['.'] + action.name@),
        ),
        action_tree(prefix, action).field("method"@) == Some(JsonTree::Text(action.method@)),
        action_tree(prefix, action).field("path"@) == Some(
            JsonTree::Text(seq!['/'] + prefix + action.path@),
        ),
        action_tree(prefix, action).field("description"@) == Some(
            JsonTree::Text(action.description@),
        ),
        list_under(action_tree(prefix, action), "params"@).len() == action.params@.len(),
        forall|i: int|
            0 <= i < action.params@.len() ==> #[trigger] list_under(
                action_tree(prefix, action),
                "params"@,
            )[i] == param_tree(action.params@[i]),
        action_tree(prefix, action).at("params"@) is List,
{
    lemma_action_fields(prefix, action);
    reveal_strlit(".");
    reveal_strlit("/");
    assert("."@ =~= seq!['.']);
    assert("/"@ =~= seq!['/']);
    assert(action_tree(prefix, action)->Record_0.dom() =~= set![
        "name"@,
        "method"@,
        "path"@,
        "description"@,
        "params"@,
    ]);
}

/// How many actions the first `m` modules have.
pub open spec fn actions_before<D>(modules: Seq<ModuleRegistration<D>>, m: int) -> int
    decreases m,
{
    if m <= 0 {
        0
    } else {
        actions_before(modules, m - 1) + modules[m - 1].actions@.len()
    }
}

proof fn lemma_actions_before<D>(
    modules: Seq<ModuleRegistration<D>>,
    others: Seq<ModuleRegistration<D>>,
    m: int,
)
    requires
        0 <= m <= modules.len(),
        m <= others.len(),
        forall|i: int| 0 <= i < m ==> modules[i] == others[i],
    ensures
        actions_before(modules, m) == actions_before(others, m),
    decreases m,
{
    if m > 0 {
        lemma_actions_before(modules, others, m - 1);
    }
}

proof fn lemma_listing_length<D>(modules: Seq<ModuleRegistration<D>>)
    ensures
        modules_trees(modules).len() == actions_before(modules, modules.len() as int),
    decreases modules.len(),
{
    if modules.len() > 0 {
        let shorter = modules.drop_last();
        lemma_listing_length(shorter);
        lemma_actions_before(modules, shorter, shorter.len() as int);
    }
}

/// The list of actions names the app and lists every action of every module
/// once: those of a module in their order, behind those of the modules that
/// registered before.
pub proof fn law_list_holds_every_action_in_order<D>(state: ServerState<D>, m: int, a: int)
    requires
        is_registered(state.modules, m, a),
    ensures
        has_keys(capabilities(state), set!["app"@, "actions"@]),
        capabilities(state).field("app"@) == Some(JsonTree::Text(state.app_name)),
        list_under(capabilities(state), "actions"@).len() == actions_before(
            state.modules,
            state.modules.len() as int,
        ),
        list_under(capabilities(state), "actions"@)[actions_before(state.modules, m) + a]
            == action_tree(state.modules[m].prefix@, state.modules[m].actions@[a]),
{
    law_list_names_the_app(state);
    law_every_action_is_listed(state.modules, m, a);
    lemma_listing_length(state.modules.take(m));
    lemma_actions_before(state.modules, state.modules.take(m), m);
}

/// The list of actions says the app's name and has as many entries as there
/// are registered actions, none where no module has registered.
pub proof fn law_list_names_the_app<D>(state: ServerState<D>)
    ensures
        has_keys(capabilities(state), set!["app"@, "actions"@]),
        capabilities(state).field("app"@) == Some(JsonTree::Text(state.app_name)),
        capabilities(state).at("actions"@) is List,
        list_under(capabilities(state), "actions"@).len() == actions_before(
            state.modules,
            state.modules.len() as int,
        ),
{
    reveal_strlit("app");
    reveal_strlit("actions");
    assert("app"@.len() == 3 && "actions"@.len() == 7);
    lemma_listing_length(state.modules);
    assert(capabilities(state)->Record_0.dom() =~= set!["app"@, "actions"@]);
}

/// The schema type of a param's kind, by name.
pub open spec fn named_type(kind: Seq<char>) -> Seq<char> {
    if kind == "string"@ {
        "string"@
    } else if kind == "integer"@ {
        "integer"@
    } else if kind == "boolean"@ {
        "boolean"@
    } else if kind == "number"@ {
        "number"@
    } else {
        "string"@
    }
}

/// The four kinds that a schema knows keep their names, and any other kind is
/// a string.
pub proof fn law_kind_has_its_schema_type(kind: Seq<char>)
    ensures
        schema_type(kind) == named_type(kind),
{
}

/// The name of a listed param.
pub open spec fn name_of(param: JsonTree) -> Seq<char> {
    text_under(param, "name"@, ""@)
}

proof fn lemma_last_property_counts(params: Seq<JsonTree>, i: int)
    requires
        0 <= i < params.len(),
        forall|j: int| i < j < params.len() ==> name_of(#[trigger] params[j]) != name_of(params[i]),
    ensures
        properties_tree(params).contains_key(name_of(params[i])),
        properties_tree(params)[name_of(params[i])] == property_tree(params[i]),
    decreases params.len(),
{
    let last = params.len() - 1;
    assert(name_of(params[last]) == param_name(params.last()));
    if i < last {
        let shorter = params.drop_last();
        assert forall|j: int| i < j < shorter.len() implies name_of(#[trigger] shorter[j])
            != name_of(shorter[i]) by {
            assert(shorter[j] == params[j]);
        }
        lemma_last_property_counts(shorter, i);
        assert(shorter[i] == params[i]);
    }
}

/// Each param, unless a later one has its name, is a property of the tool's
/// schema, with the param's own description, null where it has none, and the
/// schema type of its kind, whatever the kind. A param is a string where its
/// kind is not said.
pub proof fn law_property_describes_its_param(params: Seq<JsonTree>, i: int)
    requires
        0 <= i < params.len(),
        forall|j: int| i < j < params.len() ==> name_of(#[trigger] params[j]) != name_of(params[i]),
    ensures
        ({
            let property = tree_under(
                tree_under(input_schema(params), "properties"@, JsonTree::Null),
                name_of(params[i]),
                JsonTree::Null,
            );
            &&& has_keys(property, set!["type"@, "description"@])
            &&& property.field("description"@) == Some(
                tree_under(params[i], "description"@, JsonTree::Null),
            )
            &&& property.field("type"@) == Some(
                JsonTree::Text(named_type(text_under(params[i], "kind"@, "string"@))),
            )
        }),
{
    lemma_schema_fields(params);
    lemma_last_property_counts(params, i);
    law_kind_has_its_schema_type(text_under(params[i], "kind"@, "string"@));
    reveal_strlit("type");
    reveal_strlit("description");
    assert("type"@.len() == 4 && "description"@.len() == 11);
    assert(property_tree(params[i])->Record_0.dom() =~= set!["type"@, "description"@]);
}

/// The schema of a tool is an object's, it has a property for each name of a
/// param and for no other, and requires the names of all params in order.
pub proof fn law_schema_names_and_requires_every_param(params: Seq<JsonTree>, name: Seq<char>)
    ensures
        has_keys(input_schema(params), set!["type"@, "properties"@, "required"@]),
        input_schema(params).field("type"@) == Some(JsonTree::Text("object"@)),
        input_schema(params).at("properties"@) is Record,
        input_schema(params).at("properties"@)->Record_0.contains_key(name) <==> exists|i: int|
            0 <= i < params.len() && name_of(#[trigger] params[i]) == name,
        input_schema(params).at("required"@) is List,
        list_under(input_schema(params), "required"@).len() == params.len(),
        forall|i: int|
            0 <= i < params.len() ==> #[trigger] list_under(input_schema(params), "required"@)[i]
                == JsonTree::Text(name_of(params[i])),
{
    lemma_schema_fields(params);
    lemma_properties(params, name);
    reveal_strlit("type");
    reveal_strlit("properties");
    reveal_strlit("required");
    assert("type"@.len() == 4 && "properties"@.len() == 10 && "required"@.len() == 8);
    assert(input_schema(params)->Record_0.dom() =~= set!["type"@, "properties"@, "required"@]);
    if exists|i: int| 0 <= i < params.len() && name_of(#[trigger] params[i]) == name {
        let i = choose|i: int| 0 <= i < params.len() && name_of(#[trigger] params[i]) == name;
        assert(param_name(params[i]) == name);
    }
    if exists|i: int| 0 <= i < params.len() && param_name(#[trigger] params[i]) == name {
        let i = choose|i: int| 0 <= i < params.len() && param_name(#[trigger] params[i]) == name;
        assert(name_of(params[i]) == name);
    }
}

/// A tool has the name of its action, a description that says the action's own
/// and then its method and path in brackets, and the schema of its params.
pub proof fn law_tool_describes_its_action(action: JsonTree)
    ensures
        has_keys(tool_tree(action), set!["name"@, "description"@, "inputSchema"@]),
        tool_tree(action).field("name"@) == Some(tree_under(action, "name"@, JsonTree::Null)),
        tool_tree(action).field("description"@) == Some(
            JsonTree::Text(
                text_under(action, "description"@, ""@) + seq![' ', '('] + text_under(
                    action,
                    "method"@,
                    ""@,
                ) + seq![' '] + text_under(action, "path"@, ""@) + seq![')'],
            ),
        ),
        tool_tree(action).field("inputSchema"@) == Some(
            input_schema(list_under(action, "params"@)),
        ),
{
    lemma_tool_fields(action);
    reveal_strlit("name");
    reveal_strlit("description");
    reveal_strlit("inputSchema");
    reveal_strlit(" (");
    reveal_strlit(" ");
    reveal_strlit(")");
    assert("name"@.len() == 4 && "description"@.len() == 11 && "inputSchema"@.len() == 11);
    assert("description"@[0] == 'd' && "inputSchema"@[0] == 'i');
    assert(" ("@ =~= seq![' ', '(']);
    assert(" "@ =~= seq![' ']);
    assert(")"@ =~= seq![')']);
    assert(tool_tree(action)->Record_0.dom() =~= set!["name"@, "description"@, "inputSchema"@]);
}

/// A client that asks for the tools gets one for each listed action, in order,
/// and none where the app could not be asked.
pub proof fn law_tools_list_has_a_tool_for_each_action(
    capabilities: Result<JsonTree, Seq<char>>,
)
    ensures
        has_keys(tools_list_tree(capabilities), set!["tools"@]),
        tools_list_tree(capabilities).at("tools"@) is List,
        capabilities is Err ==> list_under(tools_list_tree(capabilities), "tools"@).len() == 0,
        capabilities is Ok ==> {
            let actions = list_under(capabilities->Ok_0, "actions"@);
            let tools = list_under(tools_list_tree(capabilities), "tools"@);
            &&& tools.len() == actions.len()
            &&& forall|i: int| 0 <= i < actions.len() ==> #[trigger] tools[i] == tool_tree(actions[i])
        },
{
    assert(tools_list_tree(capabilities)->Record_0.dom() =~= set!["tools"@]);
}

} // verus!
