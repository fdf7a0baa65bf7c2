//! A registered action is reached under its listed path, and under no other
//! module's prefix.

use crate::mcp::{placeholder, substituted};
use crate::registry::{Action, ModuleRegistration};
use crate::server::{
    answered_by, answers, begun, call_of, first_answered_by, full_path, has_placeholder, holds_placeholder, is_index,
    is_not_found, lemma_index_names_no_action, module_rest, option_text, path_back, path_front,
    prefixes_distinct, routed, target_parts, template, AgenticCall, ServerState, Step,
};
use crate::text::{lemma_between, lemma_run_to, replaced, stripped};
use vstd::prelude::*;

verus! {

proof fn lemma_prefix_strips(front: Seq<char>, back: Seq<char>)
    ensures
        stripped(front + back, front) == Some(back),
{
    assert(front =~= (front + back).subrange(0, front.len() as int));
    assert((front + back).skip(front.len() as int) =~= back);
}

/// Two modules whose prefixes differ and hold no slash never answer for each
/// other: no path lies under both.
pub proof fn law_prefixes_keep_modules_apart(path: Seq<char>, one: Seq<char>, other: Seq<char>)
    requires
        one != other,
        !one.contains('/'),
        !other.contains('/'),
    ensures
        module_rest(path, one) is None || module_rest(path, other) is None,
{
    reveal_strlit("/");
    if module_rest(path, one) is Some && module_rest(path, other) is Some {
        if one.len() <= other.len() {
            lemma_same_prefix(path, one, other);
        } else {
            lemma_same_prefix(path, other, one);
        }
    }
}

/// Modules whose prefixes are all different and hold no slash do not collide:
/// no request is answered by actions of two of them.
pub proof fn law_modules_do_not_collide<D>(
    modules: Seq<ModuleRegistration<D>>,
    method: Seq<char>,
    path: Seq<char>,
    m: int,
    a: int,
    n: int,
    b: int,
)
    requires
        prefixes_distinct(modules),
        forall|i: int| 0 <= i < modules.len() ==> !(#[trigger] modules[i]).prefix@.contains('/'),
        answered_by(modules, method, path, m, a),
        answered_by(modules, method, path, n, b),
    ensures
        m == n,
{
    if m != n {
        law_prefixes_keep_modules_apart(path, modules[m].prefix@, modules[n].prefix@);
    }
}

proof fn lemma_same_prefix(path: Seq<char>, short: Seq<char>, long: Seq<char>)
    requires
        short.len() <= long.len(),
        module_rest(path, short) is Some,
        module_rest(path, long) is Some,
        !long.contains('/'),
    ensures
        short == long,
{
    reveal_strlit("/");
    let a = "/"@ + short + "/"@;
    let b = "/"@ + long + "/"@;
    assert(a =~= path.subrange(0, a.len() as int));
    assert(b =~= path.subrange(0, b.len() as int));
    if short.len() < long.len() {
        let i = short.len() as int;
        assert(a[i + 1] == '/');
        assert(b[i + 1] == long[i]);
        assert(path[i + 1] == '/');
        assert(long.contains(long[i]));
    }
    assert forall|i: int| 0 <= i < short.len() implies short[i] == long[i] by {
        assert(a[i + 1] == short[i]);
        assert(b[i + 1] == long[i]);
    }
    assert(short =~= long);
}

/// A routed call carries a path param exactly where its action's path has a
/// placeholder, and the param is never empty.
pub proof fn law_path_param_needs_a_placeholder<D>(
    modules: Seq<ModuleRegistration<D>>,
    method: Seq<char>,
    path: Seq<char>,
    query: Seq<char>,
    body: Seq<char>,
    m: int,
    a: int,
    call: AgenticCall<D>,
)
    requires
        answered_by(modules, method, path, m, a),
        call_of(modules, method, path, query, body, m, a, call),
    ensures
        call.path_param is Some <==> has_placeholder(modules[m].actions@[a].path@),
        call.path_param is Some ==> call.path_param->0@.len() > 0,
{
}

/// A request is routed to one call at most: two calls it could be routed to
/// are the same in everything they carry.
pub proof fn law_routing_is_unique<D>(
    modules: Seq<ModuleRegistration<D>>,
    method: Seq<char>,
    path: Seq<char>,
    query: Seq<char>,
    body: Seq<char>,
    one: Option<AgenticCall<D>>,
    other: Option<AgenticCall<D>>,
)
    requires
        routed(modules, method, path, query, body, one),
        routed(modules, method, path, query, body, other),
    ensures
        one is Some <==> other is Some,
        one is Some ==> {
            &&& one->0.action_name == other->0.action_name
            &&& option_text(one->0.path_param) == option_text(other->0.path_param)
            &&& one->0.query@ == other->0.query@
            &&& one->0.body@ == other->0.body@
            &&& one->0.dispatch == other->0.dispatch
        },
{
    if one is Some {
        let (m, a) = choose|m: int, a: int| #[trigger]
            first_answered_by(modules, method, path, m, a) && call_of(
                modules,
                method,
                path,
                query,
                body,
                m,
                a,
                one->0,
            );
        assert(answered_by(modules, method, path, m, a));
        if other is Some {
            let (n, b) = choose|n: int, b: int| #[trigger]
                first_answered_by(modules, method, path, n, b) && call_of(
                    modules,
                    method,
                    path,
                    query,
                    body,
                    n,
                    b,
                    other->0,
                );
            assert(answered_by(modules, method, path, n, b));
            assert(m == n && a == b);
        }
    }
    if other is Some {
        let (n, b) = choose|n: int, b: int| #[trigger]
            first_answered_by(modules, method, path, n, b) && call_of(
                modules,
                method,
                path,
                query,
                body,
                n,
                b,
                other->0,
            );
        assert(answered_by(modules, method, path, n, b));
    }
}

/// A routed request has the method of its action and lies under the prefix of
/// its module: another method or another prefix is not routed to it.
pub proof fn law_routing_keeps_method_and_prefix<D>(
    modules: Seq<ModuleRegistration<D>>,
    method: Seq<char>,
    path: Seq<char>,
    m: int,
    a: int,
)
    requires
        answered_by(modules, method, path, m, a),
    ensures
        modules[m].actions@[a].method@ == method,
        ("/"@ + modules[m].prefix@ + "/"@).is_prefix_of(path),
{
}

/// A path without a placeholder that starts with a slash.
pub open spec fn is_flat_path(path: Seq<char>) -> bool {
    path.len() > 0 && path[0] == '/' && !has_placeholder(path)
}

/// An action with a flat path answers its own method on its listed path, and
/// on no other path under its module's prefix.
pub proof fn law_flat_action_answers_its_listed_path(
    prefix: Seq<char>,
    action: Action,
    path: Seq<char>,
)
    requires
        is_flat_path(action.path@),
    ensures
        answers(prefix, action, action.method@, path) == (if path == full_path(
            prefix,
            action.path@,
        ) {
            Some(None::<Seq<char>>)
        } else {
            None
        }),
{
    reveal_strlit("/");
    let own = action.path@;
    let tail = own.skip(1);
    let lead = "/"@ + prefix + "/"@;
    assert("/"@ =~= own.subrange(0, 1));
    assert(template(own) == tail);
    assert(full_path(prefix, own) =~= lead + tail);
    lemma_prefix_strips(lead, tail);
    if answers(prefix, action, action.method@, path) is Some {
        assert(lead =~= path.subrange(0, lead.len() as int));
        assert(path =~= lead + path.skip(lead.len() as int));
    }
}

/// A path of the form `/front{name}back`.
pub open spec fn placeholder_path(front: Seq<char>, name: Seq<char>, back: Seq<char>) -> Seq<char> {
    "/"@ + front + placeholder(name) + back
}

/// The parts of a path at its first placeholder: what stands before it holds
/// no `{`, and its name no `}`.
pub open spec fn are_path_parts(front: Seq<char>, name: Seq<char>) -> bool {
    !front.contains('{') && !name.contains('}')
}

/// What a request for a path must end in, where `back` stands after the path's
/// first placeholder.
pub open spec fn ending(back: Seq<char>) -> Seq<char> {
    if holds_placeholder(back) {
        Seq::empty()
    } else {
        back
    }
}

/// Where a path with a placeholder is cut.
proof fn lemma_placeholder_parts(front: Seq<char>, name: Seq<char>, back: Seq<char>)
    requires
        are_path_parts(front, name),
    ensures
        has_placeholder(placeholder_path(front, name, back)),
        path_front(placeholder_path(front, name, back)) == front,
        path_back(placeholder_path(front, name, back)) == ending(back),
{
    reveal_strlit("/");
    reveal_strlit("{");
    reveal_strlit("}");
    let path = placeholder_path(front, name, back);
    let whole = front + placeholder(name) + back;
    assert("/"@ =~= path.subrange(0, 1));
    assert(path.skip(1) =~= whole);
    assert(template(path) == whole);
    let open = front.len() as int;
    assert(whole[open] == '{');
    assert forall|i: int| 0 <= i < open implies whole[i] != '{' by {
        assert(whole[i] == front[i]);
        assert(front.contains(front[i]));
    }
    lemma_run_to(whole, '{', open);
    assert(whole.contains('{'));
    assert(whole.take(open) =~= front);
    let tail = name + "}"@ + back;
    assert(whole.skip(open + 1) =~= tail);
    let close = name.len() as int;
    assert(tail[close] == '}');
    assert forall|i: int| 0 <= i < close implies tail[i] != '}' by {
        assert(tail[i] == name[i]);
        assert(name.contains(name[i]));
    }
    lemma_run_to(tail, '}', close);
    assert(tail.contains('}'));
    assert(tail.skip(close + 1) =~= back);
}

/// An action with a path of the form `/front{name}back` answers its own method
/// on `/{prefix}/`, the front, any text that is not empty and the back, and
/// that text is the path param. Where the back holds another placeholder, the
/// text takes its place too.
pub proof fn law_placeholder_action_answers_with_its_param(
    prefix: Seq<char>,
    action: Action,
    front: Seq<char>,
    name: Seq<char>,
    back: Seq<char>,
    text: Seq<char>,
)
    requires
        action.path@ == placeholder_path(front, name, back),
        are_path_parts(front, name),
        text.len() > 0,
    ensures
        answers(
            prefix,
            action,
            action.method@,
            "/"@ + prefix + "/"@ + front + text + ending(back),
        ) == Some(Some(text)),
{
    let lead = "/"@ + prefix + "/"@;
    let rest = front + text + ending(back);
    assert("/"@ + prefix + "/"@ + front + text + ending(back) =~= lead + rest);
    lemma_prefix_strips(lead, rest);
    lemma_placeholder_parts(front, name, back);
    lemma_between(rest, front, text, ending(back));
}

/// A request that an action with a placeholder answers is for its listed path
/// with the path param in place of the placeholder.
pub proof fn law_placeholder_action_answers_nothing_else(
    prefix: Seq<char>,
    action: Action,
    front: Seq<char>,
    name: Seq<char>,
    back: Seq<char>,
    path: Seq<char>,
)
    requires
        action.path@ == placeholder_path(front, name, back),
        are_path_parts(front, name),
        answers(prefix, action, action.method@, path) is Some,
    ensures
        answers(prefix, action, action.method@, path)->0 is Some,
        path == "/"@ + prefix + "/"@ + front + answers(
            prefix,
            action,
            action.method@,
            path,
        )->0->0 + ending(back),
{
    let lead = "/"@ + prefix + "/"@;
    let rest = module_rest(path, prefix)->0;
    let text = answers(prefix, action, action.method@, path)->0->0;
    lemma_placeholder_parts(front, name, back);
    lemma_between(rest, front, text, ending(back));
    assert(lead =~= path.subrange(0, lead.len() as int));
    assert(path =~= lead + rest);
    assert(lead + rest =~= lead + front + text + ending(back));
}

/// `pattern` stands nowhere in `text`.
pub open spec fn stands_nowhere(text: Seq<char>, pattern: Seq<char>) -> bool {
    forall|i: int| 0 <= i < text.len() ==> !pattern.is_prefix_of(#[trigger] text.skip(i))
}

/// `pattern` stands in `text` at `at`, not before it and not behind it.
pub open spec fn stands_only_at(text: Seq<char>, pattern: Seq<char>, at: int) -> bool {
    &&& 0 <= at < text.len()
    &&& pattern.is_prefix_of(text.skip(at))
    &&& forall|i: int|
        0 <= i < text.len() && (i < at || at + pattern.len() <= i) ==> !pattern.is_prefix_of(
            #[trigger] text.skip(i),
        )
}

/// A pattern that stands nowhere replaces nothing.
pub(crate) proof fn lemma_replaces_nothing(text: Seq<char>, pattern: Seq<char>, by: Seq<char>)
    requires
        pattern.len() > 0,
        stands_nowhere(text, pattern),
    ensures
        replaced(text, pattern, by) == text,
    decreases text.len(),
{
    if text.len() > 0 {
        let rest = text.drop_first();
        assert(text.skip(0) =~= text);
        assert(!pattern.is_prefix_of(text.skip(0)));
        assert forall|i: int| 0 <= i < rest.len() implies !pattern.is_prefix_of(
            #[trigger] rest.skip(i),
        ) by {
            assert(rest.skip(i) =~= text.skip(i + 1));
        }
        lemma_replaces_nothing(rest, pattern, by);
        assert(seq![text[0]] + rest =~= text);
    }
}

/// What does not hold the character that a pattern starts with stays as it is.
pub(crate) proof fn lemma_replaces_behind(
    front: Seq<char>,
    rest: Seq<char>,
    pattern: Seq<char>,
    by: Seq<char>,
)
    requires
        pattern.len() > 0,
        !front.contains(pattern[0]),
    ensures
        replaced(front + rest, pattern, by) == front + replaced(rest, pattern, by),
    decreases front.len(),
{
    let text = front + rest;
    if front.len() == 0 {
        assert(text =~= rest);
        assert(front + replaced(rest, pattern, by) =~= replaced(rest, pattern, by));
    } else {
        let shorter = front.drop_first();
        assert(front.contains(front[0]));
        assert(text[0] == front[0]);
        if pattern.is_prefix_of(text) {
            assert(pattern[0] == text[0]);
        }
        if shorter.contains(pattern[0]) {
            let i = shorter.index_of(pattern[0]);
            assert(front[i + 1] == pattern[0]);
        }
        assert(text.drop_first() =~= shorter + rest);
        lemma_replaces_behind(shorter, rest, pattern, by);
        assert(seq![front[0]] + (shorter + replaced(rest, pattern, by)) =~= front + replaced(
            rest,
            pattern,
            by,
        ));
    }
}

/// A pattern that stands once in a text is replaced once.
proof fn lemma_replaces_once(text: Seq<char>, pattern: Seq<char>, by: Seq<char>, at: int)
    requires
        pattern.len() > 0,
        stands_only_at(text, pattern, at),
    ensures
        replaced(text, pattern, by) == text.take(at) + by + text.skip(at + pattern.len()),
    decreases at,
{
    assert(text.skip(0) =~= text);
    if at == 0 {
        let back = text.skip(pattern.len() as int);
        assert forall|i: int| 0 <= i < back.len() implies !pattern.is_prefix_of(
            #[trigger] back.skip(i),
        ) by {
            assert(back.skip(i) =~= text.skip(i + pattern.len()));
        }
        lemma_replaces_nothing(back, pattern, by);
        assert(text.take(0) + by + back =~= by + back);
    } else {
        let rest = text.drop_first();
        assert(!pattern.is_prefix_of(text.skip(0)));
        assert forall|i: int|
            0 <= i < rest.len() && (i < at - 1 || at - 1 + pattern.len() <= i) implies !pattern.is_prefix_of(
            #[trigger] rest.skip(i),
        ) by {
            assert(rest.skip(i) =~= text.skip(i + 1));
        }
        assert(rest.skip(at - 1) =~= text.skip(at));
        lemma_replaces_once(rest, pattern, by, at - 1);
        assert(rest.skip(at - 1 + pattern.len()) =~= text.skip(at + pattern.len()));
        assert(seq![text[0]] + (rest.take(at - 1) + by + rest.skip(at - 1 + pattern.len()))
            =~= text.take(at) + by + text.skip(at + pattern.len()));
    }
}

/// A text put in place of the placeholder of a listed path stands where the
/// action's path param is read, provided the placeholder stands nowhere else
/// in the listed path.
pub proof fn law_listed_path_takes_its_param(
    prefix: Seq<char>,
    front: Seq<char>,
    name: Seq<char>,
    back: Seq<char>,
    text: Seq<char>,
)
    requires
        stands_only_at(
            full_path(prefix, placeholder_path(front, name, back)),
            placeholder(name),
            2 + prefix.len() as int + front.len(),
        ),
    ensures
        substituted(full_path(prefix, placeholder_path(front, name, back)), name, text) == "/"@
            + prefix + "/"@ + front + text + back,
{
    reveal_strlit("/");
    reveal_strlit("{");
    let listed = full_path(prefix, placeholder_path(front, name, back));
    let mark = placeholder(name);
    let lead = "/"@ + prefix + "/"@ + front;
    let at = lead.len() as int;
    assert(mark.len() > 0);
    lemma_replaces_once(listed, mark, text, at);
    assert(listed =~= lead + mark + back);
    assert(listed.take(at) =~= lead);
    assert(listed.skip(at + mark.len()) =~= back);
}

/// A placeholder stands nowhere else in a listed path whose prefix, front and
/// back hold no `{`.
pub proof fn law_only_placeholder_stands_alone(
    prefix: Seq<char>,
    front: Seq<char>,
    name: Seq<char>,
    back: Seq<char>,
)
    requires
        !prefix.contains('{'),
        !front.contains('{'),
        !back.contains('{'),
    ensures
        stands_only_at(
            full_path(prefix, placeholder_path(front, name, back)),
            placeholder(name),
            2 + prefix.len() as int + front.len(),
        ),
{
    reveal_strlit("/");
    reveal_strlit("{");
    let listed = full_path(prefix, placeholder_path(front, name, back));
    let mark = placeholder(name);
    let lead = "/"@ + prefix + "/"@ + front;
    let at = lead.len() as int;
    assert(listed =~= lead + mark + back);
    assert(mark =~= listed.skip(at).subrange(0, mark.len() as int));
    assert forall|i: int|
        0 <= i < listed.len() && (i < at || at + mark.len() <= i) implies !mark.is_prefix_of(
        #[trigger] listed.skip(i),
    ) by {
        if mark.is_prefix_of(listed.skip(i)) {
            assert(mark[0] == listed.skip(i)[0]);
            assert(listed[i] == '{');
            let p = prefix.len() as int;
            if 1 <= i < 1 + p {
                assert(prefix[i - 1] == '{');
                assert(prefix.contains('{'));
            } else if 2 + p <= i < at {
                assert(front[i - 2 - p] == '{');
                assert(front.contains('{'));
            } else if i >= at + mark.len() {
                assert(back[i - at - mark.len()] == '{');
                assert(back.contains('{'));
            }
        }
    }
}

/// A request that some action answers is routed to a call, and to a call of
/// that action where no action before it answers too.
pub proof fn law_answered_request_is_routed<D>(
    modules: Seq<ModuleRegistration<D>>,
    method: Seq<char>,
    path: Seq<char>,
    query: Seq<char>,
    body: Seq<char>,
    m: int,
    a: int,
    found: Option<AgenticCall<D>>,
)
    requires
        answered_by(modules, method, path, m, a),
        routed(modules, method, path, query, body, found),
    ensures
        found is Some,
        first_answered_by(modules, method, path, m, a) ==> call_of(
            modules,
            method,
            path,
            query,
            body,
            m,
            a,
            found->0,
        ),
{
    let (n, b) = choose|n: int, b: int| #[trigger]
        first_answered_by(modules, method, path, n, b) && call_of(
            modules,
            method,
            path,
            query,
            body,
            n,
            b,
            found->0,
        );
    assert(answered_by(modules, method, path, n, b));
}

/// A request that some action answers is handed to the app, not answered by
/// the server itself.
pub proof fn law_answered_request_is_forwarded<D>(
    state: ServerState<D>,
    method: Seq<char>,
    target: Seq<char>,
    body: Seq<char>,
    m: int,
    a: int,
    step: Step<D>,
)
    requires
        answered_by(state.modules, method, target_parts(target).0, m, a),
        begun(state, method, target, body, step),
    ensures
        step is Forward,
        first_answered_by(state.modules, method, target_parts(target).0, m, a) ==> call_of(
            state.modules,
            method,
            target_parts(target).0,
            target_parts(target).1,
            body,
            m,
            a,
            step->Forward_0,
        ),
{
    let (path, query) = target_parts(target);
    if is_index(method, path) {
        lemma_index_names_no_action(state.modules, method, path);
    }
    let found = match step {
        Step::Forward(call) => Some(call),
        Step::Respond(_) => None,
    };
    law_answered_request_is_routed(state.modules, method, path, query, body, m, a, found);
}

/// A module that registers changes no route that was there before.
pub proof fn law_registering_keeps_routes<D>(
    modules: Seq<ModuleRegistration<D>>,
    registration: ModuleRegistration<D>,
    method: Seq<char>,
    path: Seq<char>,
    query: Seq<char>,
    body: Seq<char>,
    call: AgenticCall<D>,
)
    requires
        routed(modules, method, path, query, body, Some(call)),
    ensures
        routed(modules.push(registration), method, path, query, body, Some(call)),
{
    let grown = modules.push(registration);
    let (m, a) = choose|m: int, a: int| #[trigger]
        first_answered_by(modules, method, path, m, a) && call_of(
            modules,
            method,
            path,
            query,
            body,
            m,
            a,
            call,
        );
    assert forall|n: int, b: int|
        (n < m || (n == m && b < a)) implies !#[trigger] answered_by(grown, method, path, n, b) by {
        assert(!answered_by(modules, method, path, n, b));
        if 0 <= n < modules.len() {
            assert(grown[n] == modules[n]);
        }
    }
    assert(grown[m] == modules[m]);
    assert(first_answered_by(grown, method, path, m, a));
}

/// A request that is neither for the list of actions nor answered by any
/// action is not found.
pub proof fn law_unanswered_request_is_not_found<D>(
    state: ServerState<D>,
    method: Seq<char>,
    target: Seq<char>,
    body: Seq<char>,
    step: Step<D>,
)
    requires
        !is_index(method, target_parts(target).0),
        forall|m: int, a: int|
            !#[trigger] answered_by(state.modules, method, target_parts(target).0, m, a),
        begun(state, method, target, body, step),
    ensures
        step is Respond,
        is_not_found(step->Respond_0),
{
}

} // verus!
