//! The description of what one app module makes callable.

use crate::text::same_text;
use vstd::prelude::*;
use vstd::string::*;

verus! {

/// Where one [`Param`] travels on the wire.
#[derive(Debug, Clone, Copy, PartialEq, Eq, Structural)]
pub enum ParamLocation {
    /// Substituted into a `{name}` placeholder in the action's own `path`.
    Path,
    /// Read from the request's query string (`?name=value`).
    Query,
    /// Read as a field of the request's JSON body. Only valid on an action
    /// whose method is not `GET`.
    Body,
}

/// One argument of an [`Action`].
#[derive(Debug)]
pub struct Param {
    pub name: &'static str,
    pub kind: &'static str,
    pub location: ParamLocation,
    pub description: &'static str,
}

/// One capability an app module exposes.
///
/// A `Body` param is only valid on an action whose method is not `GET`: an
/// agent that calls a `GET` action has no plain way to send it a body.
#[derive(Debug)]
pub struct Action {
    pub name: &'static str,
    pub method: &'static str,
    /// A literal path, optionally with one `{name}` placeholder for a `Path`
    /// param. It does not repeat the prefix of its module.
    pub path: &'static str,
    pub description: &'static str,
    pub params: &'static [Param],
}

/// One app module's own actions and how to run them, under a prefix that
/// keeps two modules apart.
///
/// `D` is the module's dispatch handle, most often a function pointer. The
/// library carries it from the registration into the call and never runs it.
pub struct ModuleRegistration<D> {
    /// The module's own namespace: its actions are reported as
    /// `{prefix}.{name}` and requested under `/{prefix}/`.
    pub prefix: &'static str,
    pub actions: &'static [Action],
    pub dispatch: D,
}

impl Clone for Param {
    fn clone(&self) -> (copy: Self)
        ensures
            copy == *self,
    {
        Param {
            name: self.name,
            kind: self.kind,
            location: self.location,
            description: self.description,
        }
    }
}

impl Clone for Action {
    fn clone(&self) -> (copy: Self)
        ensures
            copy == *self,
    {
        Action {
            name: self.name,
            method: self.method,
            path: self.path,
            description: self.description,
            params: self.params,
        }
    }
}

impl ParamLocation {
    /// The location's name on the wire.
    pub open spec fn wire_name(self) -> Seq<char> {
        match self {
            ParamLocation::Path => "path"@,
            ParamLocation::Query => "query"@,
            ParamLocation::Body => "body"@,
        }
    }

    /// The location's name on the wire.
    pub fn as_str(&self) -> (name: &'static str)
        ensures
            name@ == self.wire_name(),
    {
        match self {
            ParamLocation::Path => "path",
            ParamLocation::Query => "query",
            ParamLocation::Body => "body",
        }
    }
}

impl Action {
    /// No `GET` action takes a param from the body.
    pub open spec fn valid(self) -> bool {
        self.method@ == "GET"@ ==> forall|i: int|
            0 <= i < self.params@.len() ==> (#[trigger] self.params@[i]).location
                != ParamLocation::Body
    }

    /// Tells whether the action keeps the rule on `Body` params.
    pub fn is_valid(&self) -> (valid: bool)
        ensures
            valid == self.valid(),
    {
        if same_text(self.method, "GET") {
            for i in 0..self.params.len()
                invariant
                    self.method@ == "GET"@,
                    forall|j: int|
                        0 <= j < i ==> (#[trigger] self.params@[j]).location != ParamLocation::Body,
            {
                if self.params[i].location == ParamLocation::Body {
                    return false;
                }
            }
        }
        true
    }
}

/// An action as a reader of the registry knows it: `{prefix}.{name}`.
pub open spec fn qualified_name(prefix: Seq<char>, name: Seq<char>) -> Seq<char> {
    prefix + "."@ + name
}

/// What is said of a `GET` action with a `Body` param.
pub open spec fn body_on_get_message(prefix: Seq<char>, name: Seq<char>) -> Seq<char> {
    qualified_name(prefix, name)
        + ": a GET action's params must all be Path/Query, never Body (found a Body param) -- curl -d cannot express a GET body without an explicit -X GET override, and nothing in the registry would tell an agent to expect one"@
}

/// What is said of an action that the routing does not recognise.
pub open spec fn unroutable_message(prefix: Seq<char>, name: Seq<char>) -> Seq<char> {
    qualified_name(prefix, name)
        + " is declared in `actions` but `is_routable` does not recognise it -- a capability an agent is told exists must actually be parseable, not silently absent"@
}

/// The action is valid and `is_routable` recognises it.
pub open spec fn action_passes<F: Fn(&Action) -> bool>(action: Action, is_routable: F) -> bool {
    action.valid() && call_ensures(is_routable, (&action,), true)
}

/// `message` is what is said of `action`, which is not valid or which
/// `is_routable` does not recognise.
pub open spec fn action_fails<F: Fn(&Action) -> bool>(
    prefix: Seq<char>,
    action: Action,
    is_routable: F,
    message: Seq<char>,
) -> bool {
    if action.valid() {
        &&& call_ensures(is_routable, (&action,), false)
        &&& message == unroutable_message(prefix, action.name@)
    } else {
        message == body_on_get_message(prefix, action.name@)
    }
}

/// `outcome` is what a check of the registry comes to: nothing where every
/// action passes, and else what is said of the first that fails.
pub open spec fn registry_checked<D, F: Fn(&Action) -> bool>(
    registration: ModuleRegistration<D>,
    is_routable: F,
    outcome: Result<(), String>,
) -> bool {
    match outcome {
        Ok(_) => forall|i: int|
            #![trigger registration.actions@[i]]
            0 <= i < registration.actions@.len() ==> action_passes(
                registration.actions@[i],
                is_routable,
            ),
        Err(message) => exists|at: int|
            #![trigger registration.actions@[at]]
            {
                &&& 0 <= at < registration.actions@.len()
                &&& forall|i: int|
                    #![trigger registration.actions@[i]]
                    0 <= i < at ==> action_passes(registration.actions@[i], is_routable)
                &&& action_fails(
                    registration.prefix@,
                    registration.actions@[at],
                    is_routable,
                    message@,
                )
            },
    }
}

/// Writes `{prefix}.{name}`.
pub(crate) fn qualify(prefix: &str, name: &str) -> (qualified: String)
    ensures
        qualified@ == qualified_name(prefix@, name@),
{
    let mut qualified = prefix.to_string();
    qualified.append(".");
    qualified.append(name);
    qualified
}

/// Checks that every declared action of a module is valid and that
/// `is_routable` recognises it. An error is the message on the first action
/// that fails: a capability that is documented but not wired is reported, not
/// silently absent.
pub fn assert_registry_routable<D>(
    registration: &ModuleRegistration<D>,
    is_routable: impl Fn(&Action) -> bool,
) -> (outcome: Result<(), String>)
    requires
        forall|i: int|
            #![trigger registration.actions@[i]]
            0 <= i < registration.actions@.len() ==> call_requires(
                is_routable,
                (&registration.actions@[i],),
            ),
    ensures
        registry_checked(*registration, is_routable, outcome),
{
    for i in 0..registration.actions.len()
        invariant
            forall|j: int|
                #![trigger registration.actions@[j]]
                0 <= j < registration.actions@.len() ==> call_requires(
                    is_routable,
                    (&registration.actions@[j],),
                ),
            forall|j: int|
                #![trigger registration.actions@[j]]
                0 <= j < i ==> action_passes(registration.actions@[j], is_routable),
    {
        let action = &registration.actions[i];
        if !action.is_valid() {
            let mut message = qualify(registration.prefix, action.name);
            message.append(
                ": a GET action's params must all be Path/Query, never Body (found a Body param) -- curl -d cannot express a GET body without an explicit -X GET override, and nothing in the registry would tell an agent to expect one",
            );
            return Err(message);
        }
        if !is_routable(action) {
            let mut message = qualify(registration.prefix, action.name);
            message.append(
                " is declared in `actions` but `is_routable` does not recognise it -- a capability an agent is told exists must actually be parseable, not silently absent",
            );
            return Err(message);
        }
    }
    Ok(())
}

} // verus!
