//! Which actions are valid, how they are named, and what is said of one that
//! fails.

use crate::registry::{
    action_fails, action_passes, body_on_get_message, qualified_name, registry_checked,
    unroutable_message, Action, ModuleRegistration, ParamLocation,
};
use crate::server::{prefix_taken, prefixes_distinct};
use vstd::prelude::*;

verus! {

/// An action is not valid exactly where its method is `GET` and one of its
/// params travels in the body.
pub proof fn law_get_action_takes_no_body(action: Action)
    ensures
        !action.valid() <==> action.method@ == "GET"@ && exists|i: int|
            0 <= i < action.params@.len() && (#[trigger] action.params@[i]).location
                == ParamLocation::Body,
{
}

/// The locations are called `path`, `query` and `body`, so no two have the
/// same name.
pub proof fn law_locations_have_their_own_names(one: ParamLocation, other: ParamLocation)
    ensures
        ParamLocation::Path.wire_name() == "path"@,
        ParamLocation::Query.wire_name() == "query"@,
        ParamLocation::Body.wire_name() == "body"@,
        one.wire_name() == other.wire_name() <==> one == other,
{
    reveal_strlit("path");
    reveal_strlit("query");
    reveal_strlit("body");
    assert("path"@.len() == 4 && "query"@.len() == 5 && "body"@.len() == 4);
    assert("path"@[0] == 'p' && "body"@[0] == 'b');
}

/// A qualified name is the prefix, a dot and the name; with one prefix, or
/// with prefixes that hold no dot, two actions of different names have
/// different qualified names.
pub proof fn law_qualified_name_tells_the_action(
    prefix: Seq<char>,
    name: Seq<char>,
    other_prefix: Seq<char>,
    other: Seq<char>,
)
    ensures
        qualified_name(prefix, name) == prefix + seq!['.'] + name,
        qualified_name(prefix, name) == qualified_name(prefix, other) ==> name == other,
        !prefix.contains('.') && !other_prefix.contains('.') && qualified_name(prefix, name)
            == qualified_name(other_prefix, other) ==> prefix == other_prefix && name == other,
{
    reveal_strlit(".");
    let whole = qualified_name(prefix, name);
    assert(whole =~= prefix + seq!['.'] + name);
    let same = qualified_name(prefix, other);
    assert(whole.skip(prefix.len() as int + 1) =~= name);
    assert(same.skip(prefix.len() as int + 1) =~= other);
    let second = qualified_name(other_prefix, other);
    if !prefix.contains('.') && !other_prefix.contains('.') && whole == second {
        let p = prefix.len() as int;
        let q = other_prefix.len() as int;
        assert(whole[p] == '.' && second[q] == '.');
        if p < q {
            assert(second[p] == other_prefix[p]);
            assert(other_prefix.contains('.'));
        }
        if q < p {
            assert(whole[q] == prefix[q]);
            assert(prefix.contains('.'));
        }
        assert(whole.take(p) =~= prefix);
        assert(second.take(q) =~= other_prefix);
        assert(second.skip(q + 1) =~= other);
    }
}

/// A failure message starts with the qualified name of its action, and says
/// the same of every action behind it.
pub proof fn law_failure_message_names_the_action(
    prefix: Seq<char>,
    name: Seq<char>,
    other_prefix: Seq<char>,
    other: Seq<char>,
)
    ensures
        (prefix + seq!['.'] + name).is_prefix_of(unroutable_message(prefix, name)),
        (prefix + seq!['.'] + name).is_prefix_of(body_on_get_message(prefix, name)),
        unroutable_message(prefix, name).skip(prefix.len() as int + 1 + name.len())
            == unroutable_message(other_prefix, other).skip(
            other_prefix.len() as int + 1 + other.len(),
        ),
        body_on_get_message(prefix, name).skip(prefix.len() as int + 1 + name.len())
            == body_on_get_message(other_prefix, other).skip(
            other_prefix.len() as int + 1 + other.len(),
        ),
{
    reveal_strlit(".");
    let own = prefix + seq!['.'] + name;
    let second = other_prefix + seq!['.'] + other;
    assert(qualified_name(prefix, name) =~= own);
    assert(qualified_name(other_prefix, other) =~= second);
    assert(own =~= unroutable_message(prefix, name).subrange(0, own.len() as int));
    assert(own =~= body_on_get_message(prefix, name).subrange(0, own.len() as int));
    assert(unroutable_message(prefix, name).skip(own.len() as int) =~= unroutable_message(
        other_prefix,
        other,
    ).skip(second.len() as int));
    assert(body_on_get_message(prefix, name).skip(own.len() as int) =~= body_on_get_message(
        other_prefix,
        other,
    ).skip(second.len() as int));
}

/// The action takes a param from the body although its method is `GET`.
pub open spec fn breaks_the_rule(action: Action) -> bool {
    action.method@ == "GET"@ && exists|i: int|
        0 <= i < action.params@.len() && (#[trigger] action.params@[i]).location
            == ParamLocation::Body
}

/// An action passes where it keeps the rule on `GET` and the predicate says
/// yes to it; it fails for the rule first, and else for the predicate's no.
pub proof fn law_action_passes_or_says_why<F: Fn(&Action) -> bool>(
    prefix: Seq<char>,
    action: Action,
    is_routable: F,
    message: Seq<char>,
)
    ensures
        action_passes(action, is_routable) <==> !breaks_the_rule(action) && call_ensures(
            is_routable,
            (&action,),
            true,
        ),
        breaks_the_rule(action) ==> (action_fails(prefix, action, is_routable, message) <==> message
            == body_on_get_message(prefix, action.name@)),
        !breaks_the_rule(action) ==> (action_fails(prefix, action, is_routable, message)
            <==> call_ensures(is_routable, (&action,), false) && message == unroutable_message(
            prefix,
            action.name@,
        )),
{
    law_get_action_takes_no_body(action);
}

/// A registry passes exactly where every action keeps the rule on `GET` and the
/// predicate says yes to it; else the message is on the first that fails, for
/// the rule or for the predicate's no, and starts with its qualified name.
pub proof fn law_registry_is_checked<D, F: Fn(&Action) -> bool>(
    registration: ModuleRegistration<D>,
    is_routable: F,
    outcome: Result<(), String>,
)
    requires
        registry_checked(registration, is_routable, outcome),
    ensures
        outcome is Ok ==> forall|i: int|
            0 <= i < registration.actions@.len() ==> !breaks_the_rule(
                #[trigger] registration.actions@[i],
            ) && call_ensures(is_routable, (&registration.actions@[i],), true),
        outcome matches Err(message) ==> exists|at: int|
            {
                let action = #[trigger] registration.actions@[at];
                let name = registration.prefix@ + seq!['.'] + action.name@;
                &&& 0 <= at < registration.actions@.len()
                &&& forall|i: int|
                    0 <= i < at ==> !breaks_the_rule(#[trigger] registration.actions@[i])
                        && call_ensures(is_routable, (&registration.actions@[i],), true)
                &&& name.is_prefix_of(message@)
                &&& breaks_the_rule(action) ==> message@ == body_on_get_message(
                    registration.prefix@,
                    action.name@,
                )
                &&& !breaks_the_rule(action) ==> message@ == unroutable_message(
                    registration.prefix@,
                    action.name@,
                ) && call_ensures(is_routable, (&action,), false)
            },
{
    let actions = registration.actions@;
    assert forall|i: int| 0 <= i < actions.len() implies (action_passes(
        #[trigger] actions[i],
        is_routable,
    ) <==> !breaks_the_rule(actions[i]) && call_ensures(is_routable, (&actions[i],), true)) by {
        law_action_passes_or_says_why(registration.prefix@, actions[i], is_routable, Seq::empty());
    }
    if outcome is Ok {
        assert forall|i: int| 0 <= i < registration.actions@.len() implies !breaks_the_rule(
            #[trigger] registration.actions@[i],
        ) && call_ensures(is_routable, (&registration.actions@[i],), true) by {
            assert(action_passes(registration.actions@[i], is_routable));
            law_action_passes_or_says_why(
                registration.prefix@,
                actions[i],
                is_routable,
                Seq::empty(),
            );
        }
    }
    if let Err(message) = outcome {
        let at = choose|at: int|
            #![trigger actions[at]]
            {
                &&& 0 <= at < actions.len()
                &&& forall|i: int|
                    #![trigger actions[i]]
                    0 <= i < at ==> action_passes(actions[i], is_routable)
                &&& action_fails(registration.prefix@, actions[at], is_routable, message@)
            };
        let action = actions[at];
        law_action_passes_or_says_why(registration.prefix@, action, is_routable, message@);
        law_failure_message_names_the_action(
            registration.prefix@,
            action.name@,
            Seq::empty(),
            Seq::empty(),
        );
    }
}

/// A prefix is taken once a module has registered under it, and by that alone.
pub proof fn law_registering_takes_the_prefix<D>(
    modules: Seq<ModuleRegistration<D>>,
    registration: ModuleRegistration<D>,
    prefix: Seq<char>,
)
    ensures
        !prefix_taken(Seq::<ModuleRegistration<D>>::empty(), prefix),
        prefix_taken(modules.push(registration), prefix) <==> prefix == registration.prefix@
            || prefix_taken(modules, prefix),
        prefixes_distinct(modules.push(registration)) <==> prefixes_distinct(modules)
            && !prefix_taken(modules, registration.prefix@),
{
    let grown = modules.push(registration);
    let last = modules.len() as int;
    assert(grown[last] == registration);
    if prefix_taken(modules, prefix) {
        let i = choose|i: int| 0 <= i < modules.len() && (#[trigger] modules[i]).prefix@ == prefix;
        assert(grown[i] == modules[i]);
    }
    if prefix_taken(grown, prefix) {
        let i = choose|i: int| 0 <= i < grown.len() && (#[trigger] grown[i]).prefix@ == prefix;
        if i < last {
            assert(modules[i] == grown[i]);
        }
    }
    if prefixes_distinct(grown) {
        assert forall|i: int, j: int| 0 <= i < j < modules.len() implies (
        #[trigger] modules[i]).prefix@ != (#[trigger] modules[j]).prefix@ by {
            assert(grown[i] == modules[i] && grown[j] == modules[j]);
        }
        if prefix_taken(modules, registration.prefix@) {
            let i = choose|i: int|
                0 <= i < modules.len() && (#[trigger] modules[i]).prefix@ == registration.prefix@;
            assert(grown[i] == modules[i]);
        }
    }
    if prefixes_distinct(modules) && !prefix_taken(modules, registration.prefix@) {
        assert forall|i: int, j: int| 0 <= i < j < grown.len() implies (
        #[trigger] grown[i]).prefix@ != (#[trigger] grown[j]).prefix@ by {
            assert(grown[i] == modules[i]);
            if j < last {
                assert(grown[j] == modules[j]);
            }
        }
    }
}

} // verus!
