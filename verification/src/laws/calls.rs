//! A call of a tool reaches the action that the tool stands for.

use crate::json::JsonTree;
use crate::laws::query::query_parts;
use crate::laws::request::{
    body_arguments, can_place, is_location, law_every_argument_is_placed, law_target_is_cut_where_it_was_joined,
    param_location, path_with_arguments, query_arguments,
};
use crate::laws::routing::{
    are_path_parts, ending, is_flat_path, law_flat_action_answers_its_listed_path,
    law_listed_path_takes_its_param, law_placeholder_action_answers_with_its_param,
    lemma_replaces_behind, lemma_replaces_nothing, placeholder_path, stands_nowhere, stands_only_at,
};
use crate::laws::tools::{
    is_registered, law_every_action_is_listed, law_every_listing_is_an_action, lemma_action_fields,
    lemma_param_fields, listing_position,
};
use crate::mcp::{
    argument_text, built_request, call_arguments, call_result, lemma_action_position, param_name,
    placeholder, planned, substituted,
};
use crate::registry::{qualified_name, Action, ModuleRegistration, Param, ParamLocation};
use crate::server::{
    action_tree, answered_by, answers, capabilities, full_path, holds_placeholder, modules_trees,
    param_tree, target_parts, ServerState,
};
use crate::text::joined;
use vstd::prelude::*;

verus! {

/// No action that is listed before action `a` of module `m` has its qualified
/// name.
pub open spec fn is_first_of_its_name<D>(
    modules: Seq<ModuleRegistration<D>>,
    m: int,
    a: int,
) -> bool {
    forall|n: int, b: int| #[trigger]
        is_registered(modules, n, b) && listing_position(modules, n, b) < listing_position(
            modules,
            m,
            a,
        ) ==> qualified_name(modules[n].prefix@, modules[n].actions@[b].name@) != qualified_name(
            modules[m].prefix@,
            modules[m].actions@[a].name@,
        )
}

/// A tool call by the qualified name of a registered action becomes the
/// request that the action's listing describes, or is answered with the
/// reason why there is none.
pub proof fn law_named_action_is_called<D>(
    state: ServerState<D>,
    m: int,
    a: int,
    params: JsonTree,
)
    requires
        is_registered(state.modules, m, a),
        is_first_of_its_name(state.modules, m, a),
        params.at("name"@) == JsonTree::Text(
            qualified_name(state.modules[m].prefix@, state.modules[m].actions@[a].name@),
        ),
    ensures
        planned(params, Ok::<JsonTree, Seq<char>>(capabilities(state))) == (match built_request(
            action_tree(state.modules[m].prefix@, state.modules[m].actions@[a]),
            call_arguments(params),
        ) {
            Ok((target, body)) => Ok::<(Seq<char>, Seq<char>, Seq<char>), JsonTree>(
                (state.modules[m].actions@[a].method@, target, body),
            ),
            Err(message) => Err::<(Seq<char>, Seq<char>, Seq<char>), JsonTree>(
                call_result(message, true),
            ),
        }),
{
    let modules = state.modules;
    let actions = modules_trees(modules);
    let name = qualified_name(modules[m].prefix@, modules[m].actions@[a].name@);
    let at = listing_position(modules, m, a);
    law_every_action_is_listed(modules, m, a);
    lemma_action_fields(modules[m].prefix@, modules[m].actions@[a]);
    assert forall|i: int| 0 <= i < at implies (#[trigger] actions[i]).at("name"@)
        != JsonTree::Text(name) by {
        law_every_listing_is_an_action(modules, i);
        let (n, b) = choose|n: int, b: int| #[trigger]
            is_registered(modules, n, b) && listing_position(modules, n, b) == i;
        law_every_action_is_listed(modules, n, b);
        lemma_action_fields(modules[n].prefix@, modules[n].actions@[b]);
    }
    assert(capabilities(state).at("actions"@).items() == actions);
    lemma_action_position(actions, name, at);
}

/// Every param of the action has its argument.
pub open spec fn has_all_arguments(action: Action, arguments: JsonTree) -> bool {
    forall|i: int|
        0 <= i < action.params@.len() ==> arguments.field((#[trigger] action.params@[i]).name@) is Some
}

/// A listed action can be called exactly where each of its params has its
/// argument: a location that no request has is never listed.
pub proof fn law_listed_action_needs_its_arguments(
    prefix: Seq<char>,
    action: Action,
    arguments: JsonTree,
)
    ensures
        built_request(action_tree(prefix, action), arguments) is Ok <==> has_all_arguments(
            action,
            arguments,
        ),
{
    let tree = action_tree(prefix, action);
    let params = tree.at("params"@).items();
    lemma_action_fields(prefix, action);
    law_every_argument_is_placed(tree.at("path"@).text_or(""@), params, arguments);
    assert forall|i: int| 0 <= i < params.len() implies #[trigger] can_place(params[i], arguments)
        == (arguments.field(action.params@[i].name@) is Some) by {
        lemma_param_fields(action.params@[i]);
        assert(params[i] == param_tree(action.params@[i]));
        assert(is_location(param_location(params[i])));
    }
    if has_all_arguments(action, arguments) {
        assert forall|i: int| 0 <= i < params.len() implies #[trigger] can_place(
            params[i],
            arguments,
        ) by {
            assert(arguments.field(action.params@[i].name@) is Some);
        }
    }
    if built_request(tree, arguments) is Ok {
        assert forall|i: int| 0 <= i < action.params@.len() implies arguments.field(
            (#[trigger] action.params@[i]).name@,
        ) is Some by {
            assert(can_place(params[i], arguments));
        }
    }
}

/// No placeholder of a param that travels in the path stands in `path`.
pub open spec fn takes_no_argument(path: Seq<char>, action: Action) -> bool {
    forall|i: int|
        0 <= i < action.params@.len() && (#[trigger] action.params@[i]).location
            == ParamLocation::Path ==> stands_nowhere(path, placeholder(action.params@[i].name@))
}

proof fn lemma_path_stays(path: Seq<char>, params: Seq<JsonTree>, arguments: JsonTree)
    requires
        forall|i: int|
            0 <= i < params.len() && param_location(#[trigger] params[i]) == "path"@
                ==> stands_nowhere(path, placeholder(param_name(params[i]))),
    ensures
        path_with_arguments(path, params, arguments) == path,
    decreases params.len(),
{
    if params.len() > 0 {
        let shorter = params.drop_last();
        assert forall|i: int|
            0 <= i < shorter.len() && param_location(#[trigger] shorter[i])
                == "path"@ implies stands_nowhere(path, placeholder(param_name(shorter[i]))) by {
            assert(shorter[i] == params[i]);
        }
        lemma_path_stays(path, shorter, arguments);
        let last = params[params.len() - 1];
        if param_location(last) == "path"@ {
            reveal_strlit("{");
            let name = param_name(last);
            assert(placeholder(name).len() > 0);
            lemma_replaces_nothing(path, placeholder(name), argument_text(arguments.at(name)));
        }
    }
}

/// The location of a listed param is the param's own.
proof fn lemma_listed_location(param: Param)
    ensures
        param_location(param_tree(param)) == "path"@ <==> param.location == ParamLocation::Path,
        param_location(param_tree(param)) == "body"@ <==> param.location == ParamLocation::Body,
        param_name(param_tree(param)) == param.name@,
{
    lemma_param_fields(param);
    reveal_strlit("path");
    reveal_strlit("query");
    reveal_strlit("body");
    assert("path"@.len() == 4 && "query"@.len() == 5 && "body"@.len() == 4);
    assert("path"@[0] == 'p' && "body"@[0] == 'b');
}

proof fn lemma_contains_joined(front: Seq<char>, back: Seq<char>, c: char)
    ensures
        (front + back).contains(c) <==> front.contains(c) || back.contains(c),
{
    let whole = front + back;
    if whole.contains(c) {
        let i = whole.index_of(c);
        if i < front.len() {
            assert(front[i] == c);
        } else {
            assert(back[i - front.len()] == c);
        }
    }
    if front.contains(c) {
        let i = front.index_of(c);
        assert(whole[i] == c);
    }
    if back.contains(c) {
        let i = back.index_of(c);
        assert(whole[i + front.len()] == c);
    }
}

/// A call of a tool whose action has a flat path, with every argument given,
/// is sent to the path where the action answers, with the action's method,
/// and its query string holds the arguments that travel there.
pub proof fn law_flat_tool_call_reaches_its_action<D>(
    state: ServerState<D>,
    m: int,
    a: int,
    params: JsonTree,
)
    requires
        is_registered(state.modules, m, a),
        is_first_of_its_name(state.modules, m, a),
        params.at("name"@) == JsonTree::Text(
            qualified_name(state.modules[m].prefix@, state.modules[m].actions@[a].name@),
        ),
        has_all_arguments(state.modules[m].actions@[a], call_arguments(params)),
        is_flat_path(state.modules[m].actions@[a].path@),
        takes_no_argument(
            full_path(state.modules[m].prefix@, state.modules[m].actions@[a].path@),
            state.modules[m].actions@[a],
        ),
        !state.modules[m].actions@[a].path@.contains('?'),
        !state.modules[m].prefix@.contains('?'),
    ensures
        ({
            let plan = planned(params, Ok::<JsonTree, Seq<char>>(capabilities(state)));
            let module = state.modules[m];
            let action = module.actions@[a];
            let (path, query) = target_parts(plan->Ok_0.1);
            &&& plan is Ok
            &&& plan->Ok_0.0 == action.method@
            &&& path == full_path(module.prefix@, action.path@)
            &&& answers(module.prefix@, action, plan->Ok_0.0, path) == Some(None::<Seq<char>>)
            &&& answered_by(state.modules, plan->Ok_0.0, path, m, a)
            &&& query == joined(
                query_parts(
                    query_arguments(
                        action.params@.map_values(|param: Param| param_tree(param)),
                        call_arguments(params),
                    ),
                ),
                "&"@,
            )
        }),
{
    let module = state.modules[m];
    let action = module.actions@[a];
    let arguments = call_arguments(params);
    let tree = action_tree(module.prefix@, action);
    let path = full_path(module.prefix@, action.path@);
    law_named_action_is_called(state, m, a, params);
    law_listed_action_needs_its_arguments(module.prefix@, action, arguments);
    lemma_action_fields(module.prefix@, action);
    reveal_strlit("/");
    assert(!path.contains('?')) by {
        lemma_contains_joined("/"@ + module.prefix@, action.path@, '?');
        lemma_contains_joined("/"@, module.prefix@, '?');
    }
    let trees = tree.at("params"@).items();
    assert forall|i: int|
        0 <= i < trees.len() && param_location(#[trigger] trees[i])
            == "path"@ implies stands_nowhere(path, placeholder(param_name(trees[i]))) by {
        lemma_listed_location(action.params@[i]);
    }
    lemma_path_stays(path, trees, arguments);
    law_target_is_cut_where_it_was_joined(tree, arguments);
    law_flat_action_answers_its_listed_path(module.prefix@, action, path);
}

proof fn lemma_no_body_arguments(params: Seq<JsonTree>, arguments: JsonTree)
    requires
        forall|i: int| 0 <= i < params.len() ==> param_location(#[trigger] params[i]) != "body"@,
    ensures
        body_arguments(params, arguments) == Map::<Seq<char>, JsonTree>::empty(),
    decreases params.len(),
{
    if params.len() > 0 {
        let shorter = params.drop_last();
        assert forall|i: int| 0 <= i < shorter.len() implies param_location(#[trigger] shorter[i])
            != "body"@ by {
            assert(shorter[i] == params[i]);
        }
        lemma_no_body_arguments(shorter, arguments);
        assert(params.last() == params[params.len() - 1]);
    }
}

/// A call of a valid `GET` action sends no body.
pub proof fn law_valid_get_call_has_no_body(
    prefix: Seq<char>,
    action: Action,
    arguments: JsonTree,
)
    requires
        action.valid(),
        action.method@ == "GET"@,
        has_all_arguments(action, arguments),
    ensures
        built_request(action_tree(prefix, action), arguments) is Ok,
        built_request(action_tree(prefix, action), arguments)->Ok_0.1 == ""@,
{
    let tree = action_tree(prefix, action);
    let params = tree.at("params"@).items();
    lemma_action_fields(prefix, action);
    law_listed_action_needs_its_arguments(prefix, action, arguments);
    law_every_argument_is_placed(tree.at("path"@).text_or(""@), params, arguments);
    assert forall|i: int| 0 <= i < params.len() implies param_location(#[trigger] params[i])
        != "body"@ by {
        lemma_listed_location(action.params@[i]);
        assert(action.params@[i].location != ParamLocation::Body);
    }
    lemma_no_body_arguments(params, arguments);
}

/// Param `k` travels in the path, and no other param does.
pub open spec fn is_only_path_param(action: Action, k: int) -> bool {
    &&& 0 <= k < action.params@.len()
    &&& forall|i: int|
        0 <= i < action.params@.len() ==> ((#[trigger] action.params@[i]).location
            == ParamLocation::Path <==> i == k)
}

proof fn lemma_only_path_argument(
    path: Seq<char>,
    params: Seq<JsonTree>,
    arguments: JsonTree,
    k: int,
)
    requires
        k < params.len(),
        forall|i: int|
            0 <= i < params.len() ==> (param_location(#[trigger] params[i]) == "path"@ <==> i == k),
    ensures
        path_with_arguments(path, params, arguments) == (if k < 0 {
            path
        } else {
            substituted(
                path,
                param_name(params[k]),
                argument_text(arguments.at(param_name(params[k]))),
            )
        }),
    decreases params.len(),
{
    if params.len() > 0 {
        let shorter = params.drop_last();
        assert forall|i: int| 0 <= i < shorter.len() implies (param_location(
            #[trigger] shorter[i],
        ) == "path"@ <==> i == (if k == shorter.len() {
            -1
        } else {
            k
        })) by {
            assert(shorter[i] == params[i]);
        }
        lemma_only_path_argument(
            path,
            shorter,
            arguments,
            if k == shorter.len() {
                -1
            } else {
                k
            },
        );
        assert(params.last() == params[params.len() - 1]);
    }
}

/// A call of a tool whose action has a path of the form `/front{name}back` and
/// takes one argument in its path, under that name, is sent to a path where
/// the action answers, and the action's path param is that argument as text,
/// provided the text is not empty, nothing in the path holds a `?`, and the
/// placeholder stands in the listed path once.
pub proof fn law_placeholder_tool_call_reaches_its_action<D>(
    state: ServerState<D>,
    m: int,
    a: int,
    params: JsonTree,
    front: Seq<char>,
    back: Seq<char>,
    k: int,
)
    requires
        is_registered(state.modules, m, a),
        is_first_of_its_name(state.modules, m, a),
        params.at("name"@) == JsonTree::Text(
            qualified_name(state.modules[m].prefix@, state.modules[m].actions@[a].name@),
        ),
        has_all_arguments(state.modules[m].actions@[a], call_arguments(params)),
        is_only_path_param(state.modules[m].actions@[a], k),
        ({
            let prefix = state.modules[m].prefix@;
            let action = state.modules[m].actions@[a];
            let name = action.params@[k].name@;
            let text = argument_text(call_arguments(params).at(name));
            &&& action.path@ == placeholder_path(front, name, back)
            &&& are_path_parts(front, name)
            &&& !holds_placeholder(back)
            &&& stands_only_at(
                full_path(prefix, action.path@),
                placeholder(name),
                2 + prefix.len() as int + front.len(),
            )
            &&& text.len() > 0
            &&& !(prefix + front + text + back).contains('?')
        }),
    ensures
        ({
            let plan = planned(params, Ok::<JsonTree, Seq<char>>(capabilities(state)));
            let module = state.modules[m];
            let action = module.actions@[a];
            let text = argument_text(call_arguments(params).at(action.params@[k].name@));
            let (path, query) = target_parts(plan->Ok_0.1);
            &&& plan is Ok
            &&& plan->Ok_0.0 == action.method@
            &&& path == "/"@ + module.prefix@ + "/"@ + front + text + back
            &&& answers(module.prefix@, action, plan->Ok_0.0, path) == Some(Some(text))
            &&& answered_by(state.modules, plan->Ok_0.0, path, m, a)
            &&& query == joined(
                query_parts(
                    query_arguments(
                        action.params@.map_values(|param: Param| param_tree(param)),
                        call_arguments(params),
                    ),
                ),
                "&"@,
            )
        }),
{
    let prefix = state.modules[m].prefix@;
    let action = state.modules[m].actions@[a];
    let arguments = call_arguments(params);
    let tree = action_tree(prefix, action);
    let listed = full_path(prefix, action.path@);
    let name = action.params@[k].name@;
    let text = argument_text(arguments.at(name));
    let trees = tree.at("params"@).items();
    law_named_action_is_called(state, m, a, params);
    law_listed_action_needs_its_arguments(prefix, action, arguments);
    lemma_action_fields(prefix, action);
    assert forall|i: int| 0 <= i < trees.len() implies (param_location(#[trigger] trees[i])
        == "path"@ <==> i == k) by {
        lemma_listed_location(action.params@[i]);
    }
    lemma_listed_location(action.params@[k]);
    assert(trees[k] == param_tree(action.params@[k]));
    lemma_only_path_argument(listed, trees, arguments, k);
    law_listed_path_takes_its_param(prefix, front, name, back, text);
    let path = path_with_arguments(listed, trees, arguments);
    let lead = "/"@ + prefix + "/"@;
    assert(path == lead + front + text + back);
    reveal_strlit("/");
    assert(!path.contains('?')) by {
        lemma_contains_joined(prefix + front + text, back, '?');
        lemma_contains_joined(prefix + front, text, '?');
        lemma_contains_joined(prefix, front, '?');
        lemma_contains_joined(lead + front + text, back, '?');
        lemma_contains_joined(lead + front, text, '?');
        lemma_contains_joined(lead, front, '?');
        lemma_contains_joined("/"@ + prefix, "/"@, '?');
        lemma_contains_joined("/"@, prefix, '?');
    }
    law_target_is_cut_where_it_was_joined(tree, arguments);
    law_placeholder_action_answers_with_its_param(prefix, action, front, name, back, text);
}

/// What holds no `{` keeps its place before what arguments are put into.
proof fn lemma_arguments_go_behind(
    front: Seq<char>,
    rest: Seq<char>,
    params: Seq<JsonTree>,
    arguments: JsonTree,
)
    requires
        !front.contains('{'),
    ensures
        path_with_arguments(front + rest, params, arguments) == front + path_with_arguments(
            rest,
            params,
            arguments,
        ),
    decreases params.len(),
{
    if params.len() > 0 {
        let shorter = params.drop_last();
        lemma_arguments_go_behind(front, rest, shorter, arguments);
        reveal_strlit("{");
        let name = param_name(params.last());
        assert(placeholder(name)[0] == '{');
        lemma_replaces_behind(
            front,
            path_with_arguments(rest, shorter, arguments),
            placeholder(name),
            argument_text(arguments.at(name)),
        );
    }
}

/// A call of a tool whose action has a path with more than one placeholder, of
/// the form `/front{name}back`, is sent to a path where the action answers,
/// and the action's path param is all that the arguments make of the path from
/// the first placeholder on, provided that is not empty and nothing in the
/// path holds a `?`.
pub proof fn law_many_placeholders_tool_call_reaches_its_action<D>(
    state: ServerState<D>,
    m: int,
    a: int,
    params: JsonTree,
    front: Seq<char>,
    name: Seq<char>,
    back: Seq<char>,
)
    requires
        is_registered(state.modules, m, a),
        is_first_of_its_name(state.modules, m, a),
        params.at("name"@) == JsonTree::Text(
            qualified_name(state.modules[m].prefix@, state.modules[m].actions@[a].name@),
        ),
        has_all_arguments(state.modules[m].actions@[a], call_arguments(params)),
        ({
            let prefix = state.modules[m].prefix@;
            let action = state.modules[m].actions@[a];
            let text = path_with_arguments(
                placeholder(name) + back,
                action.params@.map_values(|param: Param| param_tree(param)),
                call_arguments(params),
            );
            &&& action.path@ == placeholder_path(front, name, back)
            &&& are_path_parts(front, name)
            &&& holds_placeholder(back)
            &&& !prefix.contains('{')
            &&& text.len() > 0
            &&& !(prefix + front + text).contains('?')
        }),
    ensures
        ({
            let plan = planned(params, Ok::<JsonTree, Seq<char>>(capabilities(state)));
            let module = state.modules[m];
            let action = module.actions@[a];
            let text = path_with_arguments(
                placeholder(name) + back,
                action.params@.map_values(|param: Param| param_tree(param)),
                call_arguments(params),
            );
            let path = target_parts(plan->Ok_0.1).0;
            &&& plan is Ok
            &&& plan->Ok_0.0 == action.method@
            &&& path == "/"@ + module.prefix@ + "/"@ + front + text
            &&& answers(module.prefix@, action, plan->Ok_0.0, path) == Some(Some(text))
            &&& answered_by(state.modules, plan->Ok_0.0, path, m, a)
        }),
{
    let prefix = state.modules[m].prefix@;
    let action = state.modules[m].actions@[a];
    let arguments = call_arguments(params);
    let tree = action_tree(prefix, action);
    let listed = full_path(prefix, action.path@);
    let trees = tree.at("params"@).items();
    law_named_action_is_called(state, m, a, params);
    law_listed_action_needs_its_arguments(prefix, action, arguments);
    lemma_action_fields(prefix, action);
    let text = path_with_arguments(placeholder(name) + back, trees, arguments);
    let lead = "/"@ + prefix + "/"@;
    reveal_strlit("/");
    assert(listed =~= lead + front + (placeholder(name) + back));
    assert(!(lead + front).contains('{')) by {
        lemma_contains_joined(lead, front, '{');
        lemma_contains_joined("/"@ + prefix, "/"@, '{');
        lemma_contains_joined("/"@, prefix, '{');
    }
    lemma_arguments_go_behind(lead + front, placeholder(name) + back, trees, arguments);
    let path = lead + front + text;
    assert(!path.contains('?')) by {
        lemma_contains_joined(prefix + front, text, '?');
        lemma_contains_joined(prefix, front, '?');
        lemma_contains_joined(lead + front, text, '?');
        lemma_contains_joined(lead, front, '?');
        lemma_contains_joined("/"@ + prefix, "/"@, '?');
        lemma_contains_joined("/"@, prefix, '?');
    }
    law_target_is_cut_where_it_was_joined(tree, arguments);
    law_placeholder_action_answers_with_its_param(prefix, action, front, name, back, text);
    assert(path + ending(back) =~= path);
}

} // verus!
