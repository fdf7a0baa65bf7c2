//! The server: which registered action a request means, what the server says
//! of itself, and what each request is answered.

use crate::json::{list_tree, rendered, Json, JsonTree};
use crate::registry::{qualified_name, qualify, Action, ModuleRegistration, Param};
use crate::serde_bridge::{is_shallow, parse_outcome, reads_back};
use crate::text::{
    between, chars_of, find_char, lemma_run_to_is_first, run_to, same_text, split_once, stands_at,
    stripped, text_between,
};
use vstd::prelude::*;
use vstd::string::*;

verus! {

/// A routed request: the action it names, the pieces it carries and the
/// dispatch handle of the module that declares the action.
///
/// Routing has no access to the app itself, so it does not run the action: it
/// hands over the handle to whoever has the app.
#[derive(Debug)]
pub struct AgenticCall<D> {
    pub action_name: &'static str,
    /// The text in place of the path's placeholder; `None` for an action
    /// whose path has none.
    pub path_param: Option<String>,
    /// The query string, not yet parsed.
    pub query: String,
    pub body: String,
    pub dispatch: D,
}

/// The registered modules of one app, and the port to serve them on.
pub struct AgenticServer<D> {
    app_name: &'static str,
    port: u16,
    modules: Vec<ModuleRegistration<D>>,
}

/// What an [`AgenticServer`] knows.
pub struct ServerState<D> {
    pub app_name: Seq<char>,
    pub port: u16,
    pub modules: Seq<ModuleRegistration<D>>,
}

impl<D> View for AgenticServer<D> {
    type V = ServerState<D>;

    closed spec fn view(&self) -> ServerState<D> {
        ServerState { app_name: self.app_name@, port: self.port, modules: self.modules@ }
    }
}

/// A module has this prefix.
pub open spec fn prefix_taken<D>(modules: Seq<ModuleRegistration<D>>, prefix: Seq<char>) -> bool {
    exists|i: int| 0 <= i < modules.len() && (#[trigger] modules[i]).prefix@ == prefix
}

/// No two modules have the same prefix.
pub open spec fn prefixes_distinct<D>(modules: Seq<ModuleRegistration<D>>) -> bool {
    forall|i: int, j: int|
        0 <= i < j < modules.len() ==> (#[trigger] modules[i]).prefix@ != (
        #[trigger] modules[j]).prefix@
}

/// What a request path asks for under a module's prefix: what follows
/// `/{prefix}/`.
pub open spec fn module_rest(path: Seq<char>, prefix: Seq<char>) -> Option<Seq<char>> {
    stripped(path, "/"@ + prefix + "/"@)
}

/// An action's path without the slash it starts with.
pub open spec fn template(action_path: Seq<char>) -> Seq<char> {
    match stripped(action_path, "/"@) {
        Some(rest) => rest,
        None => action_path,
    }
}

/// What stands before the first `{` of an action's path.
pub open spec fn path_front(action_path: Seq<char>) -> Seq<char> {
    template(action_path).take(run_to(template(action_path), '{') as int)
}

/// What stands after the first `{` of an action's path.
pub open spec fn path_tail(action_path: Seq<char>) -> Seq<char> {
    template(action_path).skip(run_to(template(action_path), '{') as int + 1)
}

/// The text holds a `{name}` placeholder: a `{` and a `}` after it.
pub open spec fn holds_placeholder(text: Seq<char>) -> bool {
    text.contains('{') && text.skip(run_to(text, '{') as int + 1).contains('}')
}

/// The path has a placeholder.
pub open spec fn has_placeholder(action_path: Seq<char>) -> bool {
    holds_placeholder(template(action_path))
}

/// What stands after the first placeholder of an action's path.
pub open spec fn behind_placeholder(action_path: Seq<char>) -> Seq<char> {
    path_tail(action_path).skip(run_to(path_tail(action_path), '}') as int + 1)
}

/// What a request path must end in: what stands after the placeholder of an
/// action's path, or nothing where another placeholder stands there, since
/// then the path param is all that is asked for from the first on.
pub open spec fn path_back(action_path: Seq<char>) -> Seq<char> {
    if holds_placeholder(behind_placeholder(action_path)) {
        Seq::empty()
    } else {
        behind_placeholder(action_path)
    }
}

/// Whether an action's path takes what is asked for under its module's
/// prefix, and with which path param: a path without a placeholder takes
/// itself, and one with a placeholder takes any text in its place that is not
/// empty, which is the param. Where a path has more than one placeholder, the
/// param is all that stands from the first on.
pub open spec fn path_match(action_path: Seq<char>, rest: Seq<char>) -> Option<Option<Seq<char>>> {
    if has_placeholder(action_path) {
        match between(rest, path_front(action_path), path_back(action_path)) {
            Some(param) => if param.len() > 0 {
                Some(Some(param))
            } else {
                None
            },
            None => None,
        }
    } else if rest == template(action_path) {
        Some(None)
    } else {
        None
    }
}

/// Whether a module's action answers a request, and with which path param.
pub open spec fn answers(
    prefix: Seq<char>,
    action: Action,
    method: Seq<char>,
    path: Seq<char>,
) -> Option<Option<Seq<char>>> {
    if action.method@ == method {
        match module_rest(path, prefix) {
            Some(rest) => path_match(action.path@, rest),
            None => None,
        }
    } else {
        None
    }
}

/// Action `a` of module `m` answers the request.
pub open spec fn answered_by<D>(
    modules: Seq<ModuleRegistration<D>>,
    method: Seq<char>,
    path: Seq<char>,
    m: int,
    a: int,
) -> bool {
    &&& 0 <= m < modules.len()
    &&& 0 <= a < modules[m].actions@.len()
    &&& answers(modules[m].prefix@, modules[m].actions@[a], method, path) is Some
}

/// Action `a` of module `m` answers the request, and no module before, nor
/// action before it in the same module, does.
pub open spec fn first_answered_by<D>(
    modules: Seq<ModuleRegistration<D>>,
    method: Seq<char>,
    path: Seq<char>,
    m: int,
    a: int,
) -> bool {
    &&& answered_by(modules, method, path, m, a)
    &&& forall|n: int, b: int|
        (n < m || (n == m && b < a)) ==> !#[trigger] answered_by(modules, method, path, n, b)
}

/// The request names the server itself: its list of actions.
pub open spec fn is_index(method: Seq<char>, path: Seq<char>) -> bool {
    method == "GET"@ && path == "/"@
}

/// The text of an optional string.
pub open spec fn option_text(text: Option<String>) -> Option<Seq<char>> {
    match text {
        Some(text) => Some(text@),
        None => None,
    }
}

/// `call` hands the request over to action `a` of module `m`.
pub open spec fn call_of<D>(
    modules: Seq<ModuleRegistration<D>>,
    method: Seq<char>,
    path: Seq<char>,
    query: Seq<char>,
    body: Seq<char>,
    m: int,
    a: int,
    call: AgenticCall<D>,
) -> bool {
    &&& call.action_name == modules[m].actions@[a].name
    &&& answers(modules[m].prefix@, modules[m].actions@[a], method, path) == Some(
        option_text(call.path_param),
    )
    &&& call.query@ == query
    &&& call.body@ == body
    &&& call.dispatch == modules[m].dispatch
}

/// What a request is routed to: the first action that answers it, in the
/// order of registration, or nothing where none does.
pub open spec fn routed<D>(
    modules: Seq<ModuleRegistration<D>>,
    method: Seq<char>,
    path: Seq<char>,
    query: Seq<char>,
    body: Seq<char>,
    found: Option<AgenticCall<D>>,
) -> bool {
    match found {
        Some(call) => exists|m: int, a: int| #[trigger]
            first_answered_by(modules, method, path, m, a) && call_of(
                modules,
                method,
                path,
                query,
                body,
                m,
                a,
                call,
            ),
        None => forall|m: int, a: int| !#[trigger] answered_by(modules, method, path, m, a),
    }
}

/// No action answers the request for the list of actions.
pub proof fn lemma_index_names_no_action<D>(
    modules: Seq<ModuleRegistration<D>>,
    method: Seq<char>,
    path: Seq<char>,
)
    requires
        is_index(method, path),
    ensures
        forall|m: int, a: int| !#[trigger] answered_by(modules, method, path, m, a),
{
    reveal_strlit("/");
    assert forall|m: int, a: int| !#[trigger] answered_by(modules, method, path, m, a) by {
        if 0 <= m < modules.len() {
            assert(("/"@ + modules[m].prefix@ + "/"@).len() >= 2);
            assert(path.len() == 1);
        }
    }
}

/// An action's path, cut at its placeholder.
struct Shape {
    /// What stands before the placeholder; the whole path where it has none.
    front: Vec<char>,
    /// What a request must end in, where the path has a placeholder.
    back: Option<Vec<char>>,
}

/// The characters from `from` up to `to`.
fn chars_between(chars: &Vec<char>, from: usize, to: usize) -> (part: Vec<char>)
    requires
        from <= to <= chars.len(),
    ensures
        part@ == chars@.subrange(from as int, to as int),
{
    let mut part: Vec<char> = Vec::new();
    for i in from..to
        invariant
            from <= to <= chars.len(),
            part@ == chars@.subrange(from as int, i as int),
    {
        part.push(chars[i]);
        assert(part@ =~= chars@.subrange(from as int, i + 1));
    }
    part
}

/// Tells whether the characters from `from` up to `to` hold a placeholder.
fn placeholder_between(chars: &Vec<char>, from: usize, to: usize) -> (found: bool)
    requires
        from <= to <= chars.len(),
    ensures
        found == holds_placeholder(chars@.subrange(from as int, to as int)),
{
    let ghost text = chars@.subrange(from as int, to as int);
    let open = find_char(chars, from, to, '{');
    proof {
        lemma_run_to_is_first(text, '{');
    }
    if open == to {
        return false;
    }
    proof {
        assert(text.skip(open - from + 1) =~= chars@.subrange(open + 1, to as int));
        lemma_run_to_is_first(text.skip(open - from + 1), '}');
    }
    find_char(chars, open + 1, to, '}') < to
}

/// Cuts an action's path at its placeholder.
fn read_shape(action_path: &str) -> (shape: Shape)
    ensures
        shape.back is Some <==> has_placeholder(action_path@),
        match shape.back {
            Some(back) => shape.front@ == path_front(action_path@) && back@ == path_back(
                action_path@,
            ),
            None => shape.front@ == template(action_path@),
        },
{
    let chars = chars_of(action_path);
    let from: usize = if chars.len() > 0 && chars[0] == '/' {
        1
    } else {
        0
    };
    let len = chars.len();
    let ghost whole = template(action_path@);
    proof {
        reveal_strlit("/");
        assert(whole =~= chars@.subrange(from as int, len as int)) by {
            if from == 1 {
                assert("/"@ =~= chars@.subrange(0, 1));
            } else if chars@.len() > 0 {
                assert("/"@[0] != chars@[0]);
            }
        }
        lemma_run_to_is_first(whole, '{');
    }
    let open = find_char(&chars, from, len, '{');
    if open < len {
        let ghost tail = path_tail(action_path@);
        proof {
            assert(tail =~= chars@.subrange(open + 1, len as int));
            lemma_run_to_is_first(tail, '}');
        }
        let close = find_char(&chars, open + 1, len, '}');
        if close < len {
            let front = chars_between(&chars, from, open);
            assert(front@ =~= path_front(action_path@));
            assert(behind_placeholder(action_path@) =~= chars@.subrange(close + 1, len as int));
            let end: usize = if placeholder_between(&chars, close + 1, len) {
                close + 1
            } else {
                len
            };
            let back = chars_between(&chars, close + 1, end);
            assert(back@ =~= path_back(action_path@));
            return Shape { front, back: Some(back) };
        }
    }
    Shape { front: chars_between(&chars, from, len), back: None }
}

/// Matches what is asked for under the module's prefix, the part of `path`
/// from `from` on, against an action's path.
fn match_path(action_path: &str, path: &Vec<char>, from: usize) -> (found: Option<Option<String>>)
    requires
        from <= path.len(),
    ensures
        match found {
            Some(param) => path_match(action_path@, path@.skip(from as int)) == Some(
                option_text(param),
            ),
            None => path_match(action_path@, path@.skip(from as int)) is None,
        },
{
    let shape = read_shape(action_path);
    let len = path.len();
    let ghost rest = path@.skip(from as int);
    let ghost front = shape.front@;
    if !stands_at(path, from, &shape.front) {
        assert(front.is_prefix_of(front)) by {
            assert(front =~= front.subrange(0, front.len() as int));
        }
        return None;
    }
    let start: usize = from + shape.front.len();
    match shape.back {
        Some(back) => {
            if len - start <= back.len() {
                return None;
            }
            let end: usize = len - back.len();
            proof {
                let ending = rest.subrange(rest.len() - back@.len(), rest.len() as int);
                assert(path@.skip(end as int) =~= ending);
                assert(ending.subrange(0, back@.len() as int) =~= ending);
            }
            if !stands_at(path, end, &back) {
                return None;
            }
            assert(rest.subrange(front.len() as int, rest.len() - back@.len()) =~= path@.subrange(
                start as int,
                end as int,
            ));
            Some(Some(text_between(path, start, end)))
        },
        None => {
            if start == len {
                assert(rest =~= front);
                Some(None)
            } else {
                None
            }
        },
    }
}

/// Where what is asked for under a module's prefix starts in a request path.
fn rest_start(path: &Vec<char>, prefix: &str) -> (start: Option<usize>)
    ensures
        match start {
            Some(from) => from <= path.len() && module_rest(path@, prefix@) == Some(
                path@.skip(from as int),
            ),
            None => module_rest(path@, prefix@) is None,
        },
{
    let prefix_chars = chars_of(prefix);
    let ghost lead = "/"@ + prefix@ + "/"@;
    proof {
        reveal_strlit("/");
        if lead.is_prefix_of(path@) {
            assert(lead =~= path@.subrange(0, lead.len() as int));
            assert(lead[0] == '/');
            assert(lead[prefix@.len() as int + 1] == '/');
            assert(prefix@ =~= path@.skip(1).subrange(0, prefix@.len() as int)) by {
                assert forall|i: int| 0 <= i < prefix@.len() implies prefix@[i] == path@.skip(1)[i] by {
                    assert(lead[i + 1] == prefix@[i]);
                }
            }
        }
    }
    if path.len() == 0 || path[0] != '/' {
        return None;
    }
    if !stands_at(path, 1, &prefix_chars) {
        return None;
    }
    let at: usize = 1 + prefix_chars.len();
    if at < path.len() && path[at] == '/' {
        proof {
            assert(path@.subrange(0, lead.len() as int) =~= lead) by {
                assert forall|i: int| 0 <= i < lead.len() implies path@[i] == lead[i] by {
                    if 0 < i <= prefix@.len() {
                        assert(path@.skip(1)[i - 1] == prefix@[i - 1]);
                    }
                }
            }
        }
        Some(at + 1)
    } else {
        None
    }
}

/// What the list of actions says of a param.
pub open spec fn param_tree(param: Param) -> JsonTree {
    JsonTree::Record(
        map![
            "name"@ => JsonTree::Text(param.name@),
            "kind"@ => JsonTree::Text(param.kind@),
            "location"@ => JsonTree::Text(param.location.wire_name()),
            "description"@ => JsonTree::Text(param.description@),
        ],
    )
}

/// The path that an action is requested under: `/{prefix}{path}`.
pub open spec fn full_path(prefix: Seq<char>, action_path: Seq<char>) -> Seq<char> {
    "/"@ + prefix + action_path
}

/// What the list of actions says of an action.
pub open spec fn action_tree(prefix: Seq<char>, action: Action) -> JsonTree {
    JsonTree::Record(
        map![
            "name"@ => JsonTree::Text(qualified_name(prefix, action.name@)),
            "method"@ => JsonTree::Text(action.method@),
            "path"@ => JsonTree::Text(full_path(prefix, action.path@)),
            "description"@ => JsonTree::Text(action.description@),
            "params"@ => JsonTree::List(
                action.params@.map_values(|param: Param| param_tree(param)),
            ),
        ],
    )
}

/// What the list of actions says of a module.
pub open spec fn module_trees<D>(module: ModuleRegistration<D>) -> Seq<JsonTree> {
    module.actions@.map_values(|action: Action| action_tree(module.prefix@, action))
}

/// What the list of actions says of every module, in order.
pub open spec fn modules_trees<D>(modules: Seq<ModuleRegistration<D>>) -> Seq<JsonTree>
    decreases modules.len(),
{
    if modules.len() == 0 {
        Seq::empty()
    } else {
        modules_trees(modules.drop_last()) + module_trees(modules.last())
    }
}

/// What the server says of itself: the app's name and every registered
/// action.
pub open spec fn capabilities<D>(state: ServerState<D>) -> JsonTree {
    JsonTree::Record(
        map![
            "app"@ => JsonTree::Text(state.app_name),
            "actions"@ => JsonTree::List(modules_trees(state.modules)),
        ],
    )
}

/// Writes what the list of actions says of a param.
fn param_json(param: &Param) -> (json: Json)
    ensures
        json@ == param_tree(*param),
{
    Json::object().with("name", Json::text(param.name)).with("kind", Json::text(param.kind)).with(
        "location",
        Json::text(param.location.as_str()),
    ).with("description", Json::text(param.description))
}

/// Writes what the list of actions says of an action.
fn action_json(prefix: &str, action: &Action) -> (json: Json)
    ensures
        json@ == action_tree(prefix@, *action),
{
    let mut params: Vec<Json> = Vec::new();
    for i in 0..action.params.len()
        invariant
            params.len() == i,
            forall|j: int| 0 <= j < i ==> (#[trigger] params[j])@ == param_tree(action.params@[j]),
    {
        params.push(param_json(&action.params[i]));
    }
    assert(list_tree(params@) =~= action.params@.map_values(|param: Param| param_tree(param)));
    let mut path = "/".to_string();
    path.append(prefix);
    path.append(action.path);
    Json::object().with("name", Json::Text(qualify(prefix, action.name))).with(
        "method",
        Json::text(action.method),
    ).with("path", Json::Text(path)).with("description", Json::text(action.description)).with(
        "params",
        Json::list(params),
    )
}

/// What is sent back for one request.
#[derive(Debug)]
pub struct Reply {
    pub status: u16,
    /// The body is JSON, and is declared as such.
    pub json: bool,
    pub body: String,
}

/// What to do about one request.
#[derive(Debug)]
pub enum Step<D> {
    /// Send this back.
    Respond(Reply),
    /// Hand this call to the app, and send back what
    /// [`AgenticServer::finish`] makes of the outcome.
    Forward(AgenticCall<D>),
}

/// What became of a call that was handed to the app.
#[derive(Debug)]
pub enum Outcome {
    /// The app takes no calls any more.
    Refused,
    /// The app took the call and dropped it.
    Unanswered,
    /// The app's answer.
    Answered(Json),
}

/// The path and the query string of a request target: what stands before its
/// first `?`, and what stands after it.
pub open spec fn target_parts(target: Seq<char>) -> (Seq<char>, Seq<char>) {
    match split_once(target, '?') {
        Some(parts) => parts,
        None => (target, Seq::empty()),
    }
}

/// Cuts a request target into its path and its query string.
pub fn split_target(target: &str) -> (parts: (String, String))
    ensures
        (parts.0@, parts.1@) == target_parts(target@),
{
    let chars = chars_of(target);
    let len = chars.len();
    let at = find_char(&chars, 0, len, '?');
    assert(chars@.subrange(0, len as int) =~= target@);
    if at < len {
        let path = text_between(&chars, 0, at);
        let query = text_between(&chars, at + 1, len);
        assert(path@ =~= target@.take(at as int));
        assert(query@ =~= target@.skip(at + 1));
        (path, query)
    } else {
        (target.to_string(), String::new())
    }
}

impl<D> AgenticServer<D> {
    /// A server without modules.
    pub fn new(app_name: &'static str, port: u16) -> (server: Self)
        ensures
            server@ == (ServerState {
                app_name: app_name@,
                port,
                modules: Seq::<ModuleRegistration<D>>::empty(),
            }),
            prefixes_distinct(server@.modules),
    {
        AgenticServer { app_name, port, modules: Vec::new() }
    }

    /// The app's name.
    pub fn app_name(&self) -> (name: &'static str)
        ensures
            name@ == self@.app_name,
    {
        self.app_name
    }

    /// The port to serve on.
    pub fn port(&self) -> (port: u16)
        ensures
            port == self@.port,
    {
        self.port
    }

    /// Tells whether a registered module has this prefix.
    pub fn has_prefix(&self, prefix: &str) -> (taken: bool)
        ensures
            taken == prefix_taken(self@.modules, prefix@),
    {
        for i in 0..self.modules.len()
            invariant
                forall|j: int| 0 <= j < i ==> (#[trigger] self.modules[j]).prefix@ != prefix@,
        {
            if same_text(self.modules[i].prefix, prefix) {
                return true;
            }
        }
        false
    }

    /// Registers one module. Its prefix must be its own: two modules under one
    /// prefix would answer for each other.
    pub fn register(self, registration: ModuleRegistration<D>) -> (server: Self)
        requires
            !prefix_taken(self@.modules, registration.prefix@),
        ensures
            server@ == (ServerState {
                app_name: self@.app_name,
                port: self@.port,
                modules: self@.modules.push(registration),
            }),
            prefixes_distinct(self@.modules) ==> prefixes_distinct(server@.modules),
    {
        let mut modules = self.modules;
        modules.push(registration);
        AgenticServer { app_name: self.app_name, port: self.port, modules }
    }

    /// The list of actions: every registered module's actions, each under its
    /// qualified name, and the name of the app.
    pub fn capabilities_json(&self) -> (json: Json)
        ensures
            json@ == capabilities(self@),
    {
        let mut actions: Vec<Json> = Vec::new();
        assert(list_tree(actions@) =~= modules_trees(self.modules@.take(0)));
        for m in 0..self.modules.len()
            invariant
                list_tree(actions@) == modules_trees(self.modules@.take(m as int)),
        {
            let module = &self.modules[m];
            let ghost before = actions@;
            for a in 0..module.actions.len()
                invariant
                    list_tree(actions@) == list_tree(before) + module_trees(*module).take(a as int),
            {
                let ghost so_far = actions@;
                actions.push(action_json(module.prefix, &module.actions[a]));
                proof {
                    assert(list_tree(actions@) =~= list_tree(so_far).push(
                        module_trees(*module)[a as int],
                    ));
                    assert(list_tree(actions@) =~= list_tree(before) + module_trees(*module).take(
                        a + 1,
                    ));
                }
            }
            proof {
                assert(module_trees(*module).take(module.actions@.len() as int) =~= module_trees(
                    *module,
                ));
                assert(self.modules@.take(m + 1).drop_last() =~= self.modules@.take(m as int));
            }
        }
        assert(self.modules@.take(self.modules@.len() as int) =~= self.modules@);
        Json::object().with("app", Json::text(self.app_name)).with("actions", Json::list(actions))
    }
}

/// The answer to a request that no action answers.
pub open spec fn is_not_found(reply: Reply) -> bool {
    reply.status == 404 && !reply.json && reply.body@ == "not found"@
}

/// The answer whose body is the JSON text of `tree`, from which `tree` can be
/// read back.
pub open spec fn is_json_reply(reply: Reply, tree: JsonTree) -> bool {
    &&& reply.status == 200
    &&& reply.json
    &&& reply.body@ == rendered(tree)
    &&& reads_back(tree) ==> parse_outcome(reply.body@) == Ok::<JsonTree, Seq<char>>(tree)
}

/// The list of actions reads back from its text: it holds no numbers, and
/// nothing deep.
pub proof fn lemma_capabilities_read_back<D>(state: ServerState<D>)
    ensures
        reads_back(capabilities(state)),
{
    lemma_modules_trees_shallow(state.modules);
    let fields = capabilities(state)->Record_0;
    assert forall|key: Seq<char>| fields.contains_key(key) implies is_shallow(
        #[trigger] fields[key],
        126,
    ) by {
        if key == "actions"@ {
            let items = modules_trees(state.modules);
            assert forall|i: int| 0 <= i < items.len() implies is_shallow(#[trigger] items[i], 125) by {
                assert(is_listed_action(items[i]));
                lemma_listed_action_shallow(items[i]);
            }
        }
    }
}

/// What the list of actions says of some action.
spec fn is_listed_action(tree: JsonTree) -> bool {
    exists|prefix: Seq<char>, action: Action| tree == #[trigger] action_tree(prefix, action)
}

proof fn lemma_listed_action_shallow(tree: JsonTree)
    requires
        is_listed_action(tree),
    ensures
        is_shallow(tree, 125),
{
    let (prefix, action) = choose|prefix: Seq<char>, action: Action|
        tree == #[trigger] action_tree(prefix, action);
    let fields = action_tree(prefix, action)->Record_0;
    assert forall|key: Seq<char>| fields.contains_key(key) implies is_shallow(
        #[trigger] fields[key],
        124,
    ) by {
        if key == "params"@ {
            let items = action.params@.map_values(|param: Param| param_tree(param));
            assert forall|i: int| 0 <= i < items.len() implies is_shallow(#[trigger] items[i], 123) by {
                assert(items[i] == param_tree(action.params@[i]));
                let inner = param_tree(action.params@[i])->Record_0;
                assert forall|name: Seq<char>| inner.contains_key(name) implies is_shallow(
                    #[trigger] inner[name],
                    122,
                ) by {}
            }
        }
    }
}

proof fn lemma_modules_trees_shallow<D>(modules: Seq<ModuleRegistration<D>>)
    ensures
        forall|i: int|
            0 <= i < modules_trees(modules).len() ==> is_listed_action(
                #[trigger] modules_trees(modules)[i],
            ),
    decreases modules.len(),
{
    if modules.len() > 0 {
        let before = modules_trees(modules.drop_last());
        lemma_modules_trees_shallow(modules.drop_last());
        assert forall|i: int| 0 <= i < modules_trees(modules).len() implies is_listed_action(
            #[trigger] modules_trees(modules)[i],
        ) by {
            if i >= before.len() {
                let module = modules.last();
                assert(modules_trees(modules)[i] == action_tree(
                    module.prefix@,
                    module.actions@[i - before.len()],
                ));
            } else {
                assert(modules_trees(modules)[i] == before[i]);
            }
        }
    }
}

/// What is done about a request: the list of actions is served, an action's
/// request is handed to the app, and any other is not found.
pub open spec fn begun<D>(
    state: ServerState<D>,
    method: Seq<char>,
    target: Seq<char>,
    body: Seq<char>,
    step: Step<D>,
) -> bool {
    let (path, query) = target_parts(target);
    if is_index(method, path) {
        step matches Step::Respond(reply) && is_json_reply(reply, capabilities(state))
            && parse_outcome(reply.body@) == Ok::<JsonTree, Seq<char>>(capabilities(state))
    } else {
        match step {
            Step::Respond(reply) => is_not_found(reply) && routed(
                state.modules,
                method,
                path,
                query,
                body,
                None,
            ),
            Step::Forward(call) => routed(state.modules, method, path, query, body, Some(call)),
        }
    }
}

/// What is sent back when a call has had its outcome.
pub open spec fn finished(app_name: Seq<char>, outcome: Outcome, reply: Reply) -> bool {
    match outcome {
        Outcome::Refused => reply.status == 503 && !reply.json && reply.body@ == app_name
            + " is shutting down"@,
        Outcome::Unanswered => is_json_reply(
            reply,
            JsonTree::Record(map!["error"@ => JsonTree::Text("no reply"@)]),
        ),
        Outcome::Answered(answer) => is_json_reply(reply, answer@),
    }
}

impl<D: Copy> AgenticServer<D> {
    /// Finds the registered action that a request means.
    pub fn route(&self, method: &str, path: &str, query: &str, body: &str) -> (found: Option<
        AgenticCall<D>,
    >)
        ensures
            routed(self@.modules, method@, path@, query@, body@, found),
    {
        Self::route_over(self.modules.as_slice(), method, path, query, body)
    }

    /// Decides what to do about a request.
    pub fn begin(&self, method: &str, target: &str, body: &str) -> (step: Step<D>)
        ensures
            begun(self@, method@, target@, body@, step),
    {
        let (path, query) = split_target(target);
        if same_text(method, "GET") && same_text(path.as_str(), "/") {
            let text = self.capabilities_json().render();
            proof {
                lemma_capabilities_read_back(self@);
            }
            return Step::Respond(Reply { status: 200, json: true, body: text });
        }
        match self.route(method, path.as_str(), query.as_str(), body) {
            Some(call) => Step::Forward(call),
            None => Step::Respond(
                Reply { status: 404, json: false, body: "not found".to_string() },
            ),
        }
    }

    /// Decides what to send back when a call has had its outcome.
    pub fn finish(&self, outcome: Outcome) -> (reply: Reply)
        ensures
            finished(self@.app_name, outcome, reply),
    {
        match outcome {
            Outcome::Refused => {
                let mut text = self.app_name.to_string();
                text.append(" is shutting down");
                Reply { status: 503, json: false, body: text }
            },
            Outcome::Unanswered => {
                let answer = Json::object().with("error", Json::text("no reply"));
                Reply { status: 200, json: true, body: answer.render() }
            },
            Outcome::Answered(answer) => Reply { status: 200, json: true, body: answer.render() },
        }
    }

    /// Finds the registered action that a request means; `None` for a request
    /// that no registered module answers.
    pub fn route_over(
        modules: &[ModuleRegistration<D>],
        method: &str,
        path: &str,
        query: &str,
        body: &str,
    ) -> (found: Option<AgenticCall<D>>)
        ensures
            routed(modules@, method@, path@, query@, body@, found),
    {
        if same_text(method, "GET") && same_text(path, "/") {
            proof {
                lemma_index_names_no_action(modules@, method@, path@);
            }
            return None;
        }
        let path_chars = chars_of(path);
        for m in 0..modules.len()
            invariant
                path_chars@ == path@,
                forall|n: int, b: int|
                    n < m ==> !#[trigger] answered_by(modules@, method@, path@, n, b),
        {
            let module = &modules[m];
            if let Some(from) = rest_start(&path_chars, module.prefix) {
                for a in 0..module.actions.len()
                    invariant
                        path_chars@ == path@,
                        0 <= m < modules.len(),
                        *module == modules@[m as int],
                        from <= path_chars.len(),
                        module_rest(path@, module.prefix@) == Some(path@.skip(from as int)),
                        forall|n: int, b: int|
                            n < m || (n == m && b < a) ==> !#[trigger] answered_by(
                                modules@,
                                method@,
                                path@,
                                n,
                                b,
                            ),
                {
                    let action = &module.actions[a];
                    if same_text(action.method, method) {
                        if let Some(path_param) = match_path(action.path, &path_chars, from) {
                            let call = AgenticCall {
                                action_name: action.name,
                                path_param,
                                query: query.to_string(),
                                body: body.to_string(),
                                dispatch: module.dispatch,
                            };
                            assert(first_answered_by(
                                modules@,
                                method@,
                                path@,
                                m as int,
                                a as int,
                            ));
                            return Some(call);
                        }
                    }
                }
            }
        }
        None
    }
}

} // verus!
