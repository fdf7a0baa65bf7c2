//! What a request asks for, where it goes, what it carries and what it is
//! answered.

use crate::json::{rendered, JsonTree};
use crate::laws::tools::is_registered;
use crate::registry::{Action, ModuleRegistration};
use crate::serde_bridge::{displayed, parse_outcome, reads_back};
use crate::server::{
    answered_by, answers, begun, behind_placeholder, call_of, capabilities, finished,
    first_answered_by, has_placeholder, holds_placeholder, is_index, module_rest, option_text,
    path_back, path_front, path_tail, routed, target_parts, template, AgenticCall, Outcome, Reply,
    ServerState, Step,
};
use crate::text::{lemma_between, lemma_run_to, lemma_run_to_is_first, run_to};
use vstd::prelude::*;

verus! {

/// `text` is `front`, then `{name}`, then `back`, cut at its first placeholder.
pub open spec fn is_cut(
    text: Seq<char>,
    front: Seq<char>,
    name: Seq<char>,
    back: Seq<char>,
) -> bool {
    &&& text == front + seq!['{'] + name + seq!['}'] + back
    &&& !front.contains('{')
    &&& !name.contains('}')
}

/// `text` has a placeholder.
pub open spec fn can_be_cut(text: Seq<char>) -> bool {
    exists|front: Seq<char>, name: Seq<char>, back: Seq<char>| #[trigger]
        is_cut(text, front, name, back)
}

/// An action's path without the slash it starts with.
pub open spec fn bare_path(path: Seq<char>) -> Seq<char> {
    if path.len() > 0 && path[0] == '/' {
        path.skip(1)
    } else {
        path
    }
}

/// `/{prefix}/` and what follows.
pub open spec fn under(prefix: Seq<char>, rest: Seq<char>) -> Seq<char> {
    seq!['/'] + prefix + seq!['/'] + rest
}

/// A request path asks for an action of a module: it is the action's own path
/// under the module's prefix, with the param, which is not empty, in place of
/// the placeholder where the path has one; with more than one, in place of
/// all that stands from the first on.
pub open spec fn asks_for(
    prefix: Seq<char>,
    action: Action,
    path: Seq<char>,
    param: Option<Seq<char>>,
) -> bool {
    match param {
        None => !can_be_cut(bare_path(action.path@)) && path == under(
            prefix,
            bare_path(action.path@),
        ),
        Some(text) => text.len() > 0 && exists|front: Seq<char>, name: Seq<char>, back: Seq<char>|
         #[trigger]
            is_cut(bare_path(action.path@), front, name, back) && path == under(
                prefix,
                front + text + (if can_be_cut(back) {
                    Seq::empty()
                } else {
                    back
                }),
            ),
    }
}

proof fn lemma_cut_parts(text: Seq<char>, front: Seq<char>, name: Seq<char>, back: Seq<char>)
    requires
        is_cut(text, front, name, back),
    ensures
        run_to(text, '{') == front.len(),
        text.take(front.len() as int) == front,
        text.skip(front.len() as int + 1) == name + seq!['}'] + back,
        run_to(name + seq!['}'] + back, '}') == name.len(),
        (name + seq!['}'] + back).skip(name.len() as int + 1) == back,
        holds_placeholder(text),
{
    let open = front.len() as int;
    assert(text[open] == '{');
    assert forall|i: int| 0 <= i < open implies text[i] != '{' by {
        assert(text[i] == front[i]);
        assert(front.contains(front[i]));
    }
    lemma_run_to(text, '{', open);
    let tail = name + seq!['}'] + back;
    assert(text.take(open) =~= front);
    assert(text.skip(open + 1) =~= tail);
    let close = name.len() as int;
    assert(tail[close] == '}');
    assert forall|i: int| 0 <= i < close implies tail[i] != '}' by {
        assert(tail[i] == name[i]);
        assert(name.contains(name[i]));
    }
    lemma_run_to(tail, '}', close);
    assert(tail.skip(close + 1) =~= back);
    assert(text.contains('{') && tail.contains('}'));
}

proof fn lemma_cut_exists(text: Seq<char>)
    ensures
        holds_placeholder(text) <==> can_be_cut(text),
        holds_placeholder(text) ==> is_cut(
            text,
            text.take(run_to(text, '{') as int),
            text.skip(run_to(text, '{') as int + 1).take(
                run_to(text.skip(run_to(text, '{') as int + 1), '}') as int,
            ),
            text.skip(run_to(text, '{') as int + 1).skip(
                run_to(text.skip(run_to(text, '{') as int + 1), '}') as int + 1,
            ),
        ),
{
    if can_be_cut(text) {
        let (front, name, back) = choose|front: Seq<char>, name: Seq<char>, back: Seq<char>|
         #[trigger]
            is_cut(text, front, name, back);
        lemma_cut_parts(text, front, name, back);
    }
    if holds_placeholder(text) {
        lemma_run_to_is_first(text, '{');
        let open = run_to(text, '{') as int;
        let tail = text.skip(open + 1);
        lemma_run_to_is_first(tail, '}');
        let close = run_to(tail, '}') as int;
        let front = text.take(open);
        let name = tail.take(close);
        let back = tail.skip(close + 1);
        if front.contains('{') {
            let i = front.index_of('{');
            assert(text[i] == '{');
        }
        if name.contains('}') {
            let i = name.index_of('}');
            assert(tail[i] == '}');
        }
        assert(tail =~= name + seq!['}'] + back);
        assert(text =~= front + seq!['{'] + name + seq!['}'] + back);
        assert(is_cut(text, front, name, back));
    }
}

proof fn lemma_template_is_bare(path: Seq<char>)
    ensures
        template(path) == bare_path(path),
{
    reveal_strlit("/");
    if path.len() > 0 && path[0] == '/' {
        assert("/"@ =~= path.subrange(0, 1));
    } else if path.len() > 0 {
        assert("/"@[0] != path[0]);
    }
}

proof fn lemma_module_rest(path: Seq<char>, prefix: Seq<char>, rest: Seq<char>)
    ensures
        module_rest(path, prefix) == Some(rest) <==> path == under(prefix, rest),
{
    reveal_strlit("/");
    let lead = "/"@ + prefix + "/"@;
    assert(under(prefix, rest) =~= lead + rest);
    if module_rest(path, prefix) == Some(rest) {
        assert(lead =~= path.subrange(0, lead.len() as int));
        assert(path =~= lead + rest);
    }
    if path == under(prefix, rest) {
        assert(lead =~= path.subrange(0, lead.len() as int));
        assert(path.skip(lead.len() as int) =~= rest);
    }
}

/// An action answers a request exactly where the request has its method and
/// asks for it, and with the param that the request asks with.
pub proof fn law_action_answers_what_asks_for_it(
    prefix: Seq<char>,
    action: Action,
    method: Seq<char>,
    path: Seq<char>,
    param: Option<Seq<char>>,
)
    ensures
        answers(prefix, action, method, path) == Some(param) <==> action.method@ == method
            && asks_for(prefix, action, path, param),
{
    let own = action.path@;
    let bare = bare_path(own);
    lemma_template_is_bare(own);
    lemma_cut_exists(bare);
    if has_placeholder(own) {
        let front = path_front(own);
        let tail = path_tail(own);
        let name = tail.take(run_to(tail, '}') as int);
        let behind = behind_placeholder(own);
        let back = path_back(own);
        lemma_cut_exists(behind);
        assert(is_cut(bare, front, name, behind));
        if answers(prefix, action, method, path) == Some(param) {
            let rest = module_rest(path, prefix)->0;
            lemma_module_rest(path, prefix, rest);
            assert(param is Some);
            lemma_between(rest, front, param->0, back);
            assert(path == under(prefix, front + param->0 + back));
            assert(asks_for(prefix, action, path, param));
        }
        if action.method@ == method && asks_for(prefix, action, path, param) {
            assert(can_be_cut(bare));
            let text = param->0;
            let (f, n, b) = choose|f: Seq<char>, n: Seq<char>, b: Seq<char>| #[trigger]
                is_cut(bare, f, n, b) && path == under(
                    prefix,
                    f + text + (if can_be_cut(b) {
                        Seq::empty()
                    } else {
                        b
                    }),
                );
            lemma_cut_parts(bare, f, n, b);
            assert(f == front && b == behind);
            let rest = front + text + back;
            lemma_module_rest(path, prefix, rest);
            lemma_between(rest, front, text, back);
        }
    } else {
        assert(!can_be_cut(bare));
        if answers(prefix, action, method, path) == Some(param) {
            let rest = module_rest(path, prefix)->0;
            lemma_module_rest(path, prefix, rest);
        }
        if action.method@ == method && asks_for(prefix, action, path, param) {
            if param is Some {
                let (f, n, b) = choose|f: Seq<char>, n: Seq<char>, b: Seq<char>| #[trigger]
                    is_cut(bare, f, n, b) && path == under(
                        prefix,
                        f + param->0 + (if can_be_cut(b) {
                            Seq::empty()
                        } else {
                            b
                        }),
                    );
                assert(can_be_cut(bare));
            }
            lemma_module_rest(path, prefix, bare);
        }
    }
}

/// A request has the method of action `a` of module `m` and asks for it.
pub open spec fn is_asked<D>(
    modules: Seq<ModuleRegistration<D>>,
    method: Seq<char>,
    path: Seq<char>,
    m: int,
    a: int,
    param: Option<Seq<char>>,
) -> bool {
    &&& is_registered(modules, m, a)
    &&& modules[m].actions@[a].method@ == method
    &&& asks_for(modules[m].prefix@, modules[m].actions@[a], path, param)
}

/// A call hands a request over to action `a` of module `m`: it names the
/// action, carries the param, the query string and the body of the request as
/// they are, and the dispatch handle of the module.
pub open spec fn hands_over<D>(
    modules: Seq<ModuleRegistration<D>>,
    param: Option<Seq<char>>,
    query: Seq<char>,
    body: Seq<char>,
    m: int,
    a: int,
    call: AgenticCall<D>,
) -> bool {
    &&& call.action_name == modules[m].actions@[a].name
    &&& call.dispatch == modules[m].dispatch
    &&& call.path_param is Some <==> param is Some
    &&& param is Some ==> call.path_param->0@ == param->0
    &&& call.query@ == query
    &&& call.body@ == body
}

/// Whatever its method, a routed request hands its own query string and its
/// own body to the call.
pub proof fn law_call_carries_the_request<D>(
    modules: Seq<ModuleRegistration<D>>,
    method: Seq<char>,
    path: Seq<char>,
    query: Seq<char>,
    body: Seq<char>,
    call: AgenticCall<D>,
)
    requires
        routed(modules, method, path, query, body, Some(call)),
    ensures
        call.query@ == query,
        call.body@ == body,
{
}

proof fn lemma_answered_is_asked<D>(
    modules: Seq<ModuleRegistration<D>>,
    method: Seq<char>,
    path: Seq<char>,
    m: int,
    a: int,
)
    ensures
        answered_by(modules, method, path, m, a) <==> exists|param: Option<Seq<char>>| #[trigger]
            is_asked(modules, method, path, m, a, param),
        answered_by(modules, method, path, m, a) ==> is_asked(
            modules,
            method,
            path,
            m,
            a,
            answers(modules[m].prefix@, modules[m].actions@[a], method, path)->0,
        ),
{
    if answered_by(modules, method, path, m, a) {
        let param = answers(modules[m].prefix@, modules[m].actions@[a], method, path)->0;
        law_action_answers_what_asks_for_it(
            modules[m].prefix@,
            modules[m].actions@[a],
            method,
            path,
            param,
        );
        assert(is_asked(modules, method, path, m, a, param));
    }
    if exists|param: Option<Seq<char>>| #[trigger] is_asked(modules, method, path, m, a, param) {
        let param = choose|param: Option<Seq<char>>| #[trigger]
            is_asked(modules, method, path, m, a, param);
        law_action_answers_what_asks_for_it(
            modules[m].prefix@,
            modules[m].actions@[a],
            method,
            path,
            param,
        );
    }
}

/// A request is routed to the first action that it asks for, in the order of
/// registration, and the call hands the request over to that action.
pub proof fn law_request_goes_to_the_first_it_asks_for<D>(
    modules: Seq<ModuleRegistration<D>>,
    method: Seq<char>,
    path: Seq<char>,
    query: Seq<char>,
    body: Seq<char>,
    call: AgenticCall<D>,
)
    requires
        routed(modules, method, path, query, body, Some(call)),
    ensures
        exists|m: int, a: int, param: Option<Seq<char>>|
            {
                &&& #[trigger] is_asked(modules, method, path, m, a, param)
                &&& hands_over(modules, param, query, body, m, a, call)
                &&& forall|n: int, b: int, other: Option<Seq<char>>|
                    (n < m || (n == m && b < a)) ==> !#[trigger] is_asked(
                        modules,
                        method,
                        path,
                        n,
                        b,
                        other,
                    )
            },
{
    let (m, a) = choose|m: int, a: int| #[trigger]
        first_answered_by(modules, method, path, m, a) && call_of(
            modules,
            method,
            path,
            query,
            body,
            m,
            a,
            call,
        );
    lemma_answered_is_asked(modules, method, path, m, a);
    let param = option_text(call.path_param);
    assert(is_asked(modules, method, path, m, a, param));
    assert forall|n: int, b: int, other: Option<Seq<char>>|
        (n < m || (n == m && b < a)) implies !#[trigger] is_asked(
        modules,
        method,
        path,
        n,
        b,
        other,
    ) by {
        lemma_answered_is_asked(modules, method, path, n, b);
        assert(!answered_by(modules, method, path, n, b));
    }
    assert(hands_over(modules, param, query, body, m, a, call));
}

/// A request is routed nowhere exactly where it asks for no action.
pub proof fn law_request_for_nothing_goes_nowhere<D>(
    modules: Seq<ModuleRegistration<D>>,
    method: Seq<char>,
    path: Seq<char>,
    query: Seq<char>,
    body: Seq<char>,
)
    ensures
        routed(modules, method, path, query, body, None) <==> forall|
            m: int,
            a: int,
            param: Option<Seq<char>>,
        |
            !#[trigger] is_asked(modules, method, path, m, a, param),
{
    if routed(modules, method, path, query, body, None) {
        assert forall|m: int, a: int, param: Option<Seq<char>>|
            !#[trigger] is_asked(modules, method, path, m, a, param) by {
            lemma_answered_is_asked(modules, method, path, m, a);
            assert(!answered_by(modules, method, path, m, a));
        }
    }
    if forall|m: int, a: int, param: Option<Seq<char>>|
        !#[trigger] is_asked(modules, method, path, m, a, param) {
        assert forall|m: int, a: int| !#[trigger] answered_by(modules, method, path, m, a) by {
            lemma_answered_is_asked(modules, method, path, m, a);
        }
    }
}

/// A target is its path and, behind the first `?`, its query string.
pub proof fn law_target_is_path_and_query(target: Seq<char>)
    ensures
        !target_parts(target).0.contains('?'),
        target.contains('?') ==> target == target_parts(target).0 + seq!['?'] + target_parts(
            target,
        ).1,
        !target.contains('?') ==> target_parts(target).0 == target && target_parts(target).1.len()
            == 0,
{
    lemma_run_to_is_first(target, '?');
    let at = run_to(target, '?') as int;
    if at < target.len() {
        assert(target =~= target.take(at) + seq!['?'] + target.skip(at + 1));
        if target.take(at).contains('?') {
            let i = target.take(at).index_of('?');
            assert(target[i] == '?');
        }
    }
}

/// The answer that carries a JSON value, declared as such.
pub open spec fn answers_with(reply: Reply, tree: JsonTree) -> bool {
    &&& reply.status == 200
    &&& reply.json
    &&& reply.body@ == rendered(tree)
    &&& reads_back(tree) ==> parse_outcome(reply.body@) == Ok::<JsonTree, Seq<char>>(tree)
}

/// `GET /` is answered with the list of actions, whatever the query string. Any
/// other request is handed to the app where it asks for an action, with its
/// query string and its body, and is answered 404 where it asks for none.
pub proof fn law_request_is_served_forwarded_or_not_found<D>(
    state: ServerState<D>,
    method: Seq<char>,
    target: Seq<char>,
    body: Seq<char>,
    step: Step<D>,
)
    requires
        begun(state, method, target, body, step),
    ensures
        ({
            let (path, query) = target_parts(target);
            if method == "GET"@ && path == seq!['/'] {
                &&& step is Respond
                &&& answers_with(step->Respond_0, capabilities(state))
                &&& parse_outcome(step->Respond_0.body@) == Ok::<JsonTree, Seq<char>>(
                    capabilities(state),
                )
            } else {
                &&& step is Respond <==> forall|m: int, a: int, param: Option<Seq<char>>|
                    !#[trigger] is_asked(state.modules, method, path, m, a, param)
                &&& step is Respond ==> step->Respond_0.status == 404 && !step->Respond_0.json
                    && step->Respond_0.body@ == "not found"@
                &&& step is Forward ==> step->Forward_0.query@ == query
                    && step->Forward_0.body@ == body && routed(
                    state.modules,
                    method,
                    path,
                    query,
                    body,
                    Some(step->Forward_0),
                )
            }
        }),
{
    let (path, query) = target_parts(target);
    reveal_strlit("/");
    assert("/"@ =~= seq!['/']);
    if !is_index(method, path) {
        law_request_for_nothing_goes_nowhere(state.modules, method, path, query, body);
        if let Step::Forward(call) = step {
            law_request_goes_to_the_first_it_asks_for(
                state.modules,
                method,
                path,
                query,
                body,
                call,
            );
        }
    }
}

/// A call is answered 503 with the app's name where the app takes no calls, an
/// error where it dropped the call, and the app's own answer where it gave one.
pub proof fn law_outcome_is_answered(app_name: Seq<char>, outcome: Outcome, reply: Reply)
    requires
        finished(app_name, outcome, reply),
    ensures
        outcome is Refused ==> reply.status == 503 && !reply.json && reply.body@ == app_name
            + " is shutting down"@,
        outcome is Unanswered ==> reply.status == 200 && reply.json && reply.body@ == displayed(
            JsonTree::Record(Map::empty().insert("error"@, JsonTree::Text("no reply"@))),
        ),
        outcome matches Outcome::Answered(answer) ==> answers_with(reply, answer@),
{
}

} // verus!
