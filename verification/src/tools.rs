//! Tools the model may call: their description, their errors, the registry
//! that finds them by name, and the rules that the built-in tools follow.
use vstd::prelude::*;
use serde_json::Value;
use std::path::PathBuf;

use crate::json::clone_json;
use crate::text::{decimal, push_decimal};

verus! {

/// `std::io::Error`, which a failed file or process operation gives.
#[verifier::external_type_specification]
#[verifier::external_body]
pub struct ExIoError(std::io::Error);

/// `std::path::PathBuf`, an owned file system path.
#[verifier::external_type_specification]
#[verifier::external_body]
pub struct ExPathBuf(std::path::PathBuf);

/// What the model is told of a tool: its name, what it does, and the JSON
/// schema of its arguments.
#[derive(Debug, PartialEq)]
pub struct ToolSpec {
    pub name: String,
    pub description: String,
    pub parameters: Value,
}

impl Clone for ToolSpec {
    fn clone(&self) -> (res: Self)
        ensures
            res == *self,
    {
        ToolSpec {
            name: self.name.clone(),
            description: self.description.clone(),
            parameters: clone_json(&self.parameters),
        }
    }
}

/// Why a tool call failed.
#[derive(Debug)]
pub enum ToolError {
    InvalidArguments(String),
    PathEscape(String),
    Io(std::io::Error),
    CommandFailed { status: i32, stderr: String },
}

/// The message of an error of a tool; for an I/O error, the part before the
/// error's own text.
pub open spec fn tool_error_text(err: ToolError) -> Seq<char> {
    match err {
        ToolError::InvalidArguments(s) => "invalid arguments: "@ + s@,
        ToolError::PathEscape(s) => "path escapes the working directory: "@ + s@,
        ToolError::CommandFailed { status, stderr } => "command failed with status "@ + decimal(
            status as int,
        ) + ": "@ + stderr@,
        ToolError::Io(_) => "io error: "@,
    }
}

/// `text` is the message of the error: `tool_error_text`, followed for an
/// I/O error by the error's own text, as its `to_string` gives it.
pub open spec fn is_error_message(err: ToolError, text: Seq<char>) -> bool {
    match err {
        ToolError::Io(e) => exists|detail: String|
            #[trigger] vstd::string::to_string_from_display_ensures::<std::io::Error>(&e, detail)
                && text == "io error: "@ + detail@,
        _ => text == tool_error_text(err),
    }
}

impl ToolError {
    /// The message of the error, as the tool's reply to the model.
    pub fn message(&self) -> (res: String)
        ensures
            is_error_message(*self, res@),
    {
        let mut out = String::new();
        match self {
            ToolError::InvalidArguments(s) => {
                out.append("invalid arguments: ");
                out.append(s.as_str());
            },
            ToolError::PathEscape(s) => {
                out.append("path escapes the working directory: ");
                out.append(s.as_str());
            },
            ToolError::Io(err) => {
                out.append("io error: ");
                let detail = err.to_string();
                out.append(detail.as_str());
                proof {
                    reveal_strlit("io error: ");
                    assert(out@ =~= "io error: "@ + detail@);
                }
            },
            ToolError::CommandFailed { status, stderr } => {
                out.append("command failed with status ");
                push_decimal(&mut out, *status as i64);
                out.append(": ");
                out.append(stderr.as_str());
            },
        }
        proof {
            reveal_strlit("invalid arguments: ");
            reveal_strlit("path escapes the working directory: ");
            reveal_strlit("io error: ");
            reveal_strlit("command failed with status ");
            reveal_strlit(": ");
            assert(self is Io || out@ =~= tool_error_text(*self));
        }
        out
    }
}

/// A tool the model may call. Each tool gives its own description and runs
/// on the arguments that the model sent.
pub trait Tool: Send + Sync {
    /// Whether `spec` is a description this tool may give of itself. A tool
    /// that does not say so may give any description.
    open spec fn describes(&self, spec: ToolSpec) -> bool {
        true
    }

    /// Whether `reply` is a reply this tool may give to `arguments`. A tool
    /// that does not say so may give any reply.
    open spec fn replies(&self, arguments: Value, reply: Result<String, ToolError>) -> bool {
        true
    }

    fn spec(&self) -> (res: ToolSpec)
        ensures
            self.describes(res),
    ;

    fn call(&self, arguments: Value) -> (res: Result<String, ToolError>)
        ensures
            self.replies(arguments, res),
    ;
}

/// A tool with the name it was registered under.
struct Registered<T: ?Sized> {
    name: String,
    tool: Box<T>,
}

fn registered<T: ?Sized>(name: String, tool: Box<T>) -> (res: Registered<T>)
    ensures
        res.name == name,
        res.tool == tool,
{
    Registered { name, tool }
}

/// The names of the entries, in order.
spec fn names_of<T: ?Sized>(tools: Seq<Registered<T>>) -> Seq<Seq<char>> {
    tools.map_values(|t: Registered<T>| t.name@)
}

/// No name occurs twice among the entries.
spec fn unique_names<T: ?Sized>(tools: Seq<Registered<T>>) -> bool {
    forall|i: int, j: int|
        0 <= i < j < tools.len() ==> #[trigger] tools[i].name@ != #[trigger] tools[j].name@
}

/// The tool stored under each name of the entries.
spec fn tools_by_name<T: ?Sized>(tools: Seq<Registered<T>>) -> Map<Seq<char>, Box<T>> {
    Map::new(
        |n: Seq<char>| exists|i: int| 0 <= i < tools.len() && tools[i].name@ == n,
        |n: Seq<char>| tools[choose|i: int| 0 <= i < tools.len() && tools[i].name@ == n].tool,
    )
}

/// With unique names, the tool under an entry's name is that entry's tool.
proof fn lemma_tool_under_name<T: ?Sized>(tools: Seq<Registered<T>>, i: int)
    requires
        unique_names(tools),
        0 <= i < tools.len(),
    ensures
        tools_by_name(tools).dom().contains(tools[i].name@),
        tools_by_name(tools)[tools[i].name@] == tools[i].tool,
{
    let n = tools[i].name@;
    assert(tools[i].name@ == n);
    let j = choose|j: int| 0 <= j < tools.len() && tools[j].name@ == n;
    if j < i {
        assert(tools[j].name@ != tools[i].name@);
    } else if i < j {
        assert(tools[i].name@ != tools[j].name@);
    }
}

/// Unique names make a list of names without repeats.
proof fn lemma_names_without_repeats<T: ?Sized>(tools: Seq<Registered<T>>)
    requires
        unique_names(tools),
    ensures
        names_of(tools).no_duplicates(),
{
    assert forall|i: int, j: int|
        0 <= i < names_of(tools).len() && 0 <= j < names_of(tools).len() && i != j implies names_of(
        tools,
    )[i] != names_of(tools)[j] by {
        if i < j {
            assert(tools[i].name@ != tools[j].name@);
        } else {
            assert(tools[j].name@ != tools[i].name@);
        }
    }
}

/// Whether `names[j]` is not used again before position `k`.
pub open spec fn is_last_use(names: Seq<Seq<char>>, j: int, k: int) -> bool {
    forall|l: int| j < l < k ==> names[l] != names[j]
}

/// After the first `k` of a series of insertions into an empty map, the keys
/// are the names used so far and each holds the tool of its last insertion.
proof fn lemma_registrations<T: ?Sized>(
    maps: Seq<Map<Seq<char>, Box<T>>>,
    names: Seq<Seq<char>>,
    tools: Seq<Box<T>>,
    k: int,
)
    requires
        0 <= k <= names.len(),
        maps.len() == names.len() + 1,
        tools.len() == names.len(),
        maps[0] == Map::<Seq<char>, Box<T>>::empty(),
        forall|i: int|
            #![trigger names[i]]
            0 <= i < names.len() ==> maps[i + 1] == maps[i].insert(names[i], tools[i]),
    ensures
        forall|n: Seq<char>|
            #[trigger] maps[k].dom().contains(n) <==> exists|j: int| 0 <= j < k && #[trigger] names[j] == n,
        forall|j: int| 0 <= j < k && is_last_use(names, j, k) ==> maps[k][#[trigger] names[j]] == tools[j],
    decreases k,
{
    if k > 0 {
        lemma_registrations(maps, names, tools, k - 1);
        let prev = maps[k - 1];
        assert(names[k - 1] == names[k - 1]);
        assert(maps[k] == prev.insert(names[k - 1], tools[k - 1]));
        assert forall|n: Seq<char>|
            #[trigger] maps[k].dom().contains(n) <==> exists|j: int| 0 <= j < k && #[trigger] names[j] == n by {
            if maps[k].dom().contains(n) {
                if n == names[k - 1] {
                    assert(0 <= k - 1 < k && names[k - 1] == n);
                } else {
                    assert(prev.dom().contains(n));
                    let j = choose|j: int| 0 <= j < k - 1 && #[trigger] names[j] == n;
                    assert(0 <= j < k && names[j] == n);
                }
            }
            if exists|j: int| 0 <= j < k && #[trigger] names[j] == n {
                let j = choose|j: int| 0 <= j < k && #[trigger] names[j] == n;
                if j < k - 1 {
                    assert(0 <= j < k - 1 && names[j] == n);
                    assert(prev.dom().contains(n));
                }
                assert(maps[k].dom().contains(n));
            }
        }
        assert forall|j: int| 0 <= j < k && is_last_use(names, j, k) implies maps[k][#[trigger] names[j]]
            == tools[j] by {
            if j < k - 1 {
                assert(names[k - 1] != names[j]);
                assert(is_last_use(names, j, k - 1));
                assert(prev[names[j]] == tools[j]);
            }
        }
    } else {
        assert forall|n: Seq<char>|
            #[trigger] maps[k].dom().contains(n) <==> exists|j: int| 0 <= j < k && #[trigger] names[j] == n by {
        }
    }
}

/// The law of a series of registrations, stated over the map of tools by
/// name that `ToolRegistry::register_as` and `ToolRegistry::register` update
/// (`tool_map`), for tools of any type: starting from the empty map, after
/// setting `names[i]` to `tools[i]` for each `i` in turn, a name is present
/// exactly where some registration used it, and it holds the tool of the
/// last registration that used it.
pub proof fn last_registration_wins<T: ?Sized>(
    maps: Seq<Map<Seq<char>, Box<T>>>,
    names: Seq<Seq<char>>,
    tools: Seq<Box<T>>,
)
    requires
        maps.len() == names.len() + 1,
        tools.len() == names.len(),
        maps[0] == Map::<Seq<char>, Box<T>>::empty(),
        forall|i: int|
            #![trigger names[i]]
            0 <= i < names.len() ==> maps[i + 1] == maps[i].insert(names[i], tools[i]),
    ensures
        forall|n: Seq<char>| #[trigger] maps.last().dom().contains(n) <==> names.contains(n),
        forall|j: int|
            0 <= j < names.len() && is_last_use(names, j, names.len() as int) ==> maps.last()[
            #[trigger] names[j]] == tools[j],
{
    lemma_registrations(maps, names, tools, names.len() as int);
    assert forall|n: Seq<char>| #[trigger] maps.last().dom().contains(n) <==> names.contains(n) by {
        if names.contains(n) {
            let j = choose|j: int| 0 <= j < names.len() && names[j] == n;
            assert(maps[names.len() as int].dom().contains(names[j]));
        }
        if maps.last().dom().contains(n) {
            let j = choose|j: int| 0 <= j < names.len() && #[trigger] names[j] == n;
            assert(names[j] == n);
        }
    }
}

/// The position of the entry of that name, if there is one.
fn position<T: ?Sized>(tools: &Vec<Registered<T>>, name: &String) -> (res: Option<usize>)
    ensures
        match res {
            Some(i) => i < tools@.len() && tools@[i as int].name@ == name@,
            None => !names_of(tools@).contains(name@),
        },
{
    let mut i: usize = 0;
    while i < tools.len()
        invariant
            i <= tools@.len(),
            forall|j: int| 0 <= j < i ==> tools@[j].name@ != name@,
        decreases tools@.len() - i,
    {
        if tools[i].name == *name {
            return Some(i);
        }
        i = i + 1;
    }
    proof {
        if names_of(tools@).contains(name@) {
            let k = choose|k: int| 0 <= k < names_of(tools@).len() && names_of(tools@)[k] == name@;
            assert(tools@[k].name@ == name@);
        }
    }
    None
}

/// Stores a tool under a name among entries with unique names: it replaces
/// the entry of that name in its place, or comes last.
fn store<T: ?Sized>(tools: &mut Vec<Registered<T>>, name: String, tool: Box<T>)
    requires
        unique_names(old(tools)@),
    ensures
        unique_names(final(tools)@),
        names_of(final(tools)@) == if names_of(old(tools)@).contains(name@) {
            names_of(old(tools)@)
        } else {
            names_of(old(tools)@).push(name@)
        },
        names_of(final(tools)@).contains(name@),
        tools_by_name(final(tools)@) == tools_by_name(old(tools)@).insert(name@, tool),
{
    let ghost name_view = name@;
    let ghost before = tools@;
    let found = position(tools, &name);
    let entry = registered(name, tool);
    let ghost new_index: int;
    match found {
        Some(i) => {
            tools.set(i, entry);
            proof {
                new_index = i as int;
            }
            assert(forall|k: int|
                0 <= k < tools@.len() ==> #[trigger] tools@[k].name@ == before[k].name@);
            assert(names_of(tools@) =~= names_of(before));
        },
        None => {
            tools.push(entry);
            proof {
                new_index = before.len() as int;
            }
            assert(forall|k: int|
                0 <= k < before.len() ==> #[trigger] tools@[k].name@ == before[k].name@);
            assert(forall|k: int| 0 <= k < before.len() ==> before[k].name@ != name_view) by {
                assert forall|k: int| 0 <= k < before.len() implies before[k].name@
                    != name_view by {
                    assert(names_of(before)[k] == before[k].name@);
                }
            }
            assert(names_of(tools@) =~= names_of(before).push(name_view));
        },
    }
    proof {
        let after = tools@;
        assert(after[new_index].tool == tool);
        assert(unique_names(after)) by {
            assert forall|i: int, j: int| 0 <= i < j < after.len() implies #[trigger] after[i].name@
                != #[trigger] after[j].name@ by {
                if i != new_index && j != new_index {
                    assert(after[i] == before[i] && after[j] == before[j]);
                } else if i == new_index {
                    if found is Some {
                        assert(after[j] == before[j]);
                        assert(before[j].name@ != before[i].name@);
                    } else {
                        assert(false);
                    }
                } else {
                    if found is Some {
                        assert(after[i] == before[i]);
                        assert(before[i].name@ != before[j].name@);
                    } else {
                        assert(after[i] == before[i]);
                        assert(names_of(before)[i] == before[i].name@);
                    }
                }
            }
        }
        let old_map = tools_by_name(before);
        let new_map = tools_by_name(after);
        lemma_tool_under_name(after, new_index);
        assert(after[new_index].name@ == name_view);
        assert(names_of(after)[new_index] == name_view);
        assert forall|n: Seq<char>| #[trigger] new_map.dom().contains(n) <==> old_map.dom().insert(
            name_view,
        ).contains(n) by {
            if new_map.dom().contains(n) && n != name_view {
                let k = choose|k: int| 0 <= k < after.len() && after[k].name@ == n;
                assert(k != new_index);
                assert(after[k] == before[k]);
                assert(before[k].name@ == n);
                assert(old_map.dom().contains(n));
            }
            if old_map.dom().contains(n) && n != name_view {
                let k = choose|k: int| 0 <= k < before.len() && before[k].name@ == n;
                assert(k != new_index);
                assert(after[k] == before[k]);
                assert(after[k].name@ == n);
                assert(new_map.dom().contains(n));
            }
        }
        assert forall|n: Seq<char>| #[trigger] new_map.dom().contains(n) implies new_map[n]
            == old_map.insert(name_view, tool)[n] by {
            if n != name_view {
                let k = choose|k: int| 0 <= k < before.len() && before[k].name@ == n;
                assert(old_map.dom().contains(n));
                assert(k != new_index);
                assert(after[k] == before[k]);
                lemma_tool_under_name(after, k);
                lemma_tool_under_name(before, k);
            }
        }
        assert(new_map =~= old_map.insert(name_view, tool));
    }
}

/// The tools the agent knows, found by name. They are a list of entries with
/// unique names, which acts as a map from name to tool, rather than a
/// `HashMap` keyed by `String`: vstd specifies `HashMap` lookups only for key
/// types that obey its key model, which it does not establish for `String`
/// (only an `assume` would).
pub struct ToolRegistry {
    tools: Vec<Registered<dyn Tool>>,
}

impl ToolRegistry {
    /// The names of the tools, in the order they were first registered.
    pub closed spec fn names(&self) -> Seq<Seq<char>> {
        names_of(self.tools@)
    }

    /// The tool stored under each registered name.
    pub closed spec fn tool_map(&self) -> Map<Seq<char>, Box<dyn Tool>> {
        tools_by_name(self.tools@)
    }

    /// No name is registered twice.
    #[verifier::type_invariant]
    closed spec fn names_unique(&self) -> bool {
        unique_names(self.tools@)
    }

    /// Whether `reply` is a reply that the tool stored under `name` may give
    /// to `arguments`.
    pub open spec fn may_reply(
        &self,
        name: Seq<char>,
        arguments: Value,
        reply: Result<String, ToolError>,
    ) -> bool {
        (*self.tool_map()[name]).replies(arguments, reply)
    }

    /// Whether `spec` is a description that the tool stored under `name` may
    /// give.
    pub open spec fn may_describe(&self, name: Seq<char>, spec: ToolSpec) -> bool {
        (*self.tool_map()[name]).describes(spec)
    }

    /// Whether a tool of that name is registered.
    pub open spec fn has(&self, name: Seq<char>) -> bool {
        self.names().contains(name)
    }

    /// A name is registered exactly where the map of tools holds a tool for it.
    pub proof fn names_are_the_keys(&self)
        ensures
            forall|n: Seq<char>| self.has(n) <==> #[trigger] self.tool_map().dom().contains(n),
    {
        assert forall|n: Seq<char>| self.has(n) <==> #[trigger] self.tool_map().dom().contains(
            n,
        ) by {
            if self.has(n) {
                let k = choose|k: int| 0 <= k < self.names().len() && self.names()[k] == n;
                assert(self.tools@[k].name@ == n);
            }
            if self.tool_map().dom().contains(n) {
                let k = choose|k: int| 0 <= k < self.tools@.len() && self.tools@[k].name@ == n;
                assert(self.names()[k] == n);
            }
        }
    }

    /// An empty registry.
    pub fn new() -> (res: Self)
        ensures
            res.names() == Seq::<Seq<char>>::empty(),
            res.names().no_duplicates(),
            res.tool_map() == Map::<Seq<char>, Box<dyn Tool>>::empty(),
    {
        let res = ToolRegistry { tools: Vec::new() };
        assert(res.names() =~= Seq::<Seq<char>>::empty());
        assert(res.tool_map() =~= Map::<Seq<char>, Box<dyn Tool>>::empty());
        res
    }

    /// Stores a tool under a name. A tool of the same name that was there
    /// before is replaced and keeps its place; a new name comes last. Every
    /// other name keeps its tool.
    pub fn register_as(&mut self, name: String, tool: Box<dyn Tool>)
        ensures
            final(self).names() == if old(self).has(name@) {
                old(self).names()
            } else {
                old(self).names().push(name@)
            },
            final(self).has(name@),
            final(self).names().no_duplicates(),
            final(self).tool_map() == old(self).tool_map().insert(name@, tool),
    {
        proof {
            use_type_invariant(&*self);
        }
        let mut tools: Vec<Registered<dyn Tool>> = Vec::new();
        std::mem::swap(&mut tools, &mut self.tools);
        store(&mut tools, name, tool);
        self.tools = tools;
        proof {
            lemma_names_without_repeats(self.tools@);
        }
    }

    /// Registers a tool under the name in the description it gives, as
    /// `register_as` does.
    pub fn register(&mut self, tool: Box<dyn Tool>)
        ensures
            exists|spec: ToolSpec|
                {
                    &&& #[trigger] (*tool).describes(spec)
                    &&& final(self).names() == if old(self).has(spec.name@) {
                        old(self).names()
                    } else {
                        old(self).names().push(spec.name@)
                    }
                    &&& final(self).has(spec.name@)
                    &&& final(self).tool_map() == old(self).tool_map().insert(spec.name@, tool)
                },
            final(self).names().no_duplicates(),
    {
        proof {
            use_type_invariant(&*self);
        }
        let spec = tool.spec();
        let ghost described = spec;
        let mut tools: Vec<Registered<dyn Tool>> = Vec::new();
        std::mem::swap(&mut tools, &mut self.tools);
        store(&mut tools, spec.name, tool);
        self.tools = tools;
        assert((*tool).describes(described));
        proof {
            lemma_names_without_repeats(self.tools@);
        }
    }

    /// The tool stored under that name, if there is one.
    pub fn get(&self, name: &str) -> (res: Option<&Box<dyn Tool>>)
        ensures
            res is Some <==> self.has(name@),
            res matches Some(t) ==> *t == self.tool_map()[name@],
            self.names().no_duplicates(),
    {
        proof {
            use_type_invariant(self);
            lemma_names_without_repeats(self.tools@);
        }
        let key = name.to_string();
        match position(&self.tools, &key) {
            Some(i) => {
                proof {
                    lemma_tool_under_name(self.tools@, i as int);
                    assert(self.names()[i as int] == name@);
                }
                Some(&self.tools[i].tool)
            },
            None => None,
        }
    }

    /// The descriptions of all tools, in the order of their names: each one
    /// is a description that the tool under that name gives.
    pub fn specs(&self) -> (res: Vec<ToolSpec>)
        ensures
            res@.len() == self.names().len(),
            self.names().no_duplicates(),
            forall|i: int|
                0 <= i < res@.len() ==> #[trigger] self.may_describe(self.names()[i], res@[i]),
    {
        proof {
            use_type_invariant(self);
            lemma_names_without_repeats(self.tools@);
        }
        let mut res: Vec<ToolSpec> = Vec::new();
        let mut i: usize = 0;
        while i < self.tools.len()
            invariant
                i <= self.tools@.len(),
                res@.len() == i,
                unique_names(self.tools@),
                forall|k: int| 0 <= k < i ==> #[trigger] self.may_describe(self.names()[k], res@[k]),
            decreases self.tools@.len() - i,
        {
            let spec = self.tools[i].tool.spec();
            proof {
                lemma_tool_under_name(self.tools@, i as int);
                assert(self.names()[i as int] == self.tools@[i as int].name@);
            }
            res.push(spec);
            i = i + 1;
        }
        res
    }
}

/// Whether `s` holds `..` as a whole part between `/` separators (or the
/// ends of the text).
pub open spec fn has_parent_segment(s: Seq<char>) -> bool {
    exists|i: int|
        #![trigger s[i], s[i + 1]]
        0 <= i && i + 1 < s.len() && s[i] == '.' && s[i + 1] == '.' && (i == 0 || s[i - 1] == '/')
            && (i + 2 == s.len() || s[i + 2] == '/')
}

/// Whether `s` holds two dots in a row anywhere.
pub open spec fn has_two_dots(s: Seq<char>) -> bool {
    exists|i: int| #![trigger s[i], s[i + 1]] 0 <= i && i + 1 < s.len() && s[i] == '.' && s[i + 1] == '.'
}

/// A path text whose `..` parts are the same on every platform: it has no
/// `\`, which separates parts only on some platforms and begins their
/// prefixes; no leading `//`; and it does not begin with a drive prefix such
/// as `C:` glued to a `..` part (`C:..`), which only some platforms split.
pub open spec fn is_plain_path(s: Seq<char>) -> bool {
    &&& forall|i: int| 0 <= i < s.len() ==> s[i] != '\\'
    &&& !(s.len() >= 2 && s[0] == '/' && s[1] == '/')
    &&& !(s.len() >= 4 && s[1] == ':' && s[2] == '.' && s[3] == '.' && (s.len() == 4 || s[4]
        == '/'))
}

/// The path that `Path::new(text).to_path_buf()` makes of a text.
pub uninterp spec fn path_of(text: Seq<char>) -> PathBuf;

/// The kind of one component of a path, as `std::path::Component` tells
/// them apart.
#[derive(Clone, Copy, Debug, PartialEq, Eq)]
pub enum PathPart {
    Prefix,
    RootDir,
    CurDir,
    ParentDir,
    Normal,
}

/// Whether one of the parts is a parent directory.
pub open spec fn has_parent_part(parts: Seq<PathPart>) -> bool {
    exists|i: int| 0 <= i < parts.len() && #[trigger] parts[i] == PathPart::ParentDir
}

/// `Path::new(raw).components()`, each component by its kind. By `std`'s
/// documentation a `ParentDir` component is a `..` part of the path, `/`
/// separates parts on every platform, and a prefix (of Windows) is either a
/// drive letter with `:` or begins with `\`. So on a plain path the
/// `ParentDir` components are the parts between `/` separators that are
/// `..`. On other texts which characters separate parts or begin a prefix
/// depends on the platform, and is not stated.
#[verifier::external_body]
fn path_parts(raw: &str) -> (res: Vec<PathPart>)
    ensures
        has_parent_part(res@) ==> has_two_dots(raw@),
        is_plain_path(raw@) ==> (has_parent_part(res@) <==> has_parent_segment(raw@)),
{
    let mut parts = Vec::new();
    for component in std::path::Path::new(raw).components() {
        parts.push(match component {
            std::path::Component::Prefix(_) => PathPart::Prefix,
            std::path::Component::RootDir => PathPart::RootDir,
            std::path::Component::CurDir => PathPart::CurDir,
            std::path::Component::ParentDir => PathPart::ParentDir,
            std::path::Component::Normal(_) => PathPart::Normal,
        });
    }
    parts
}

/// Whether the parts hold a parent directory.
fn has_parent_dir(parts: &Vec<PathPart>) -> (res: bool)
    ensures
        res == has_parent_part(parts@),
{
    let mut i: usize = 0;
    while i < parts.len()
        invariant
            i <= parts@.len(),
            forall|j: int| 0 <= j < i ==> parts@[j] != PathPart::ParentDir,
        decreases parts@.len() - i,
    {
        match parts[i] {
            PathPart::ParentDir => {
                assert(parts@[i as int] == PathPart::ParentDir);
                return true;
            },
            _ => {},
        }
        i = i + 1;
    }
    false
}

/// The text that `path.display()` prints for a path.
pub uninterp spec fn path_text(path: PathBuf) -> Seq<char>;

/// `Path::new(raw).to_path_buf()`. The path holds the text as it is, so it
/// displays as that text (`display` only loses what is not Unicode).
#[verifier::external_body]
fn path_buf(raw: &str) -> (res: PathBuf)
    ensures
        res == path_of(raw@),
        path_text(res) == raw@,
{
    std::path::Path::new(raw).to_path_buf()
}

/// `path.display().to_string()`.
#[verifier::external_body]
fn display_path(path: &PathBuf) -> (res: String)
    ensures
        res@ == path_text(*path),
{
    path.display().to_string()
}

/// The position of the last `/` in `s`, or -1 where it has none.
pub open spec fn last_slash(s: Seq<char>) -> int
    decreases s.len(),
{
    if s.len() == 0 {
        -1
    } else if s.last() == '/' {
        s.len() - 1
    } else {
        last_slash(s.drop_last())
    }
}

/// `last_slash` finds the last `/`, if there is one.
proof fn lemma_last_slash(s: Seq<char>)
    ensures
        -1 <= last_slash(s) < s.len(),
        last_slash(s) >= 0 ==> s[last_slash(s)] == '/',
        forall|i: int| last_slash(s) < i < s.len() ==> s[i] != '/',
    decreases s.len(),
{
    if s.len() > 0 && s.last() != '/' {
        lemma_last_slash(s.drop_last());
        assert forall|i: int| last_slash(s) < i < s.len() implies s[i] != '/' by {
            if i < s.len() - 1 {
                assert(s[i] == s.drop_last()[i]);
            }
        }
    }
}

/// The text of the parent of a simple relative path: everything before its
/// last `/`, or the empty text where it has one part only.
pub open spec fn parent_text(s: Seq<char>) -> Seq<char> {
    if last_slash(s) < 0 {
        Seq::empty()
    } else {
        s.take(last_slash(s))
    }
}

/// Whether `s` holds `.` as a whole part between `/` separators.
pub open spec fn has_dot_segment(s: Seq<char>) -> bool {
    exists|i: int|
        #![trigger s[i]]
        0 <= i < s.len() && s[i] == '.' && (i == 0 || s[i - 1] == '/') && (i + 1 == s.len() || s[
            i + 1
        ] == '/')
}

/// A relative path whose components are exactly its `/`-separated parts,
/// each an ordinary name: not empty, no `\` and no `:` (so no platform
/// prefix), no leading, trailing or doubled `/`, and no part `.` or `..`.
pub open spec fn is_simple_relative(s: Seq<char>) -> bool {
    &&& s.len() > 0
    &&& forall|i: int| 0 <= i < s.len() ==> s[i] != '\\' && s[i] != ':'
    &&& s[0] != '/'
    &&& s.last() != '/'
    &&& forall|i: int| #![trigger s[i], s[i + 1]] 0 <= i < s.len() - 1 ==> !(s[i] == '/' && s[i + 1] == '/')
    &&& !has_dot_segment(s)
    &&& !has_parent_segment(s)
}

/// Whether `s` holds `.` as a whole part at position `i`.
pub open spec fn is_dot_part(s: Seq<char>, i: int) -> bool {
    &&& 0 <= i < s.len()
    &&& s[i] == '.'
    &&& i == 0 || s[i - 1] == '/'
    &&& i + 1 == s.len() || s[i + 1] == '/'
}

/// A path whose components are its `/`-separated parts on every platform,
/// relative or starting at the root `/`: not empty, no `\` and no `:` (so no
/// platform prefix), no doubled or trailing `/`, and no part `.` but a
/// leading `./`.
pub open spec fn has_plain_parent(s: Seq<char>) -> bool {
    &&& s.len() > 0
    &&& forall|i: int| 0 <= i < s.len() ==> s[i] != '\\' && s[i] != ':'
    &&& s.last() != '/'
    &&& forall|i: int| #![trigger s[i], s[i + 1]] 0 <= i < s.len() - 1 ==> !(s[i] == '/' && s[i + 1] == '/')
    &&& forall|i: int| #[trigger] is_dot_part(s, i) ==> i == 0 && i + 1 < s.len()
}

/// The text of the parent of such a path: everything before its last `/`,
/// the root `/` itself where that is its only `/`, and the empty text where
/// it has none.
pub open spec fn plain_parent_text(s: Seq<char>) -> Seq<char> {
    if last_slash(s) < 0 {
        Seq::empty()
    } else if last_slash(s) == 0 {
        seq!['/']
    } else {
        s.take(last_slash(s))
    }
}

/// A path's parent and its final part make the path again: the parent, a
/// `/` (the root's own where the parent is `/`), and a final part that is
/// not empty and holds no `/`. A path without `/` is all final part, with the
/// empty parent.
pub proof fn parent_and_final_part_make_the_path(s: Seq<char>)
    requires
        has_plain_parent(s),
    ensures
        last_slash(s) < s.len() - 1,
        forall|i: int| last_slash(s) < i < s.len() ==> s[i] != '/',
        last_slash(s) < 0 ==> plain_parent_text(s).len() == 0,
        last_slash(s) == 0 ==> plain_parent_text(s) == seq!['/'] && s == plain_parent_text(s) + s.skip(1),
        last_slash(s) > 0 ==> s == plain_parent_text(s) + seq!['/'] + s.skip(last_slash(s) + 1),
        last_slash(s) >= 0 ==> plain_parent_text(s).len() > 0,
{
    lemma_last_slash(s);
    let k = last_slash(s);
    if k == 0 {
        assert(s =~= seq!['/'] + s.skip(1));
    } else if k > 0 {
        assert(s =~= s.take(k) + seq!['/'] + s.skip(k + 1));
    }
}

/// `path.parent()`, as an owned path. By `std`'s documentation the parent is
/// the path without its final component (`/foo` for `/foo/bar`, `/` for
/// `/foo`), and `Some("")` for a relative path of one component; `None`
/// comes only for a path that ends in a root or a prefix, or is empty. By the
/// documentation of `Path::components`, repeated and trailing separators are
/// ignored and `.` parts are dropped except at the start, so a path of
/// `has_plain_parent` has its `/`-separated parts as components on every
/// platform, and its parent is the text before its last `/` (`/` where that
/// is the first character). On other paths it depends on the platform, and
/// is not stated.
#[verifier::external_body]
fn parent_path(path: &PathBuf) -> (res: Option<PathBuf>)
    ensures
        match res {
            Some(p) => is_simple_relative(path_text(*path)) ==> path_text(p) == parent_text(
                path_text(*path),
            ),
            None => !is_simple_relative(path_text(*path)),
        },
        match res {
            Some(p) => has_plain_parent(path_text(*path)) ==> path_text(p) == plain_parent_text(
                path_text(*path),
            ),
            None => !has_plain_parent(path_text(*path)),
        },
{
    path.parent().map(|parent| parent.to_path_buf())
}

/// The directory to create before writing a file whose parent is `parent`:
/// that parent, where it is there and not empty.
pub fn directory_to_create(parent: Option<PathBuf>) -> (res: Option<PathBuf>)
    ensures
        res == match parent {
            Some(p) => if path_text(p).len() > 0 {
                Some(p)
            } else {
                None
            },
            None => None,
        },
{
    match parent {
        Some(p) => {
            let text = display_path(&p);
            if text.as_str().unicode_len() > 0 {
                Some(p)
            } else {
                None
            }
        },
        None => None,
    }
}

/// The directory that must exist before the write tool writes at `path`:
/// the path's parent, unless it has none or it is empty. For a simple
/// relative path that is the text before its last `/`, and nothing where it
/// has no `/`.
pub fn directory_for(path: &PathBuf) -> (res: Option<PathBuf>)
    ensures
        res matches Some(d) ==> path_text(d).len() > 0,
        is_simple_relative(path_text(*path)) ==> if last_slash(path_text(*path)) < 0 {
            res is None
        } else {
            res matches Some(d) && path_text(d) == path_text(*path).take(
                last_slash(path_text(*path)),
            )
        },
        has_plain_parent(path_text(*path)) ==> if last_slash(path_text(*path)) < 0 {
            res is None
        } else {
            res matches Some(d) && path_text(d) == plain_parent_text(path_text(*path))
        },
{
    let parent = parent_path(path);
    proof {
        lemma_last_slash(path_text(*path));
        if has_plain_parent(path_text(*path)) {
            parent_and_final_part_make_the_path(path_text(*path));
        }
    }
    directory_to_create(parent)
}

/// The write tool's reply once it wrote at `path`.
pub fn write_reply(path: &PathBuf) -> (res: String)
    ensures
        res@ == "wrote "@ + path_text(*path),
{
    let mut out = String::new();
    out.append("wrote ");
    let text = display_path(path);
    out.append(text.as_str());
    proof {
        reveal_strlit("wrote ");
    }
    out
}

/// The path a file tool may use: the text as a path, refused where it
/// climbs to a parent directory with `..`.
pub fn scoped_path(raw: &str) -> (res: Result<PathBuf, ToolError>)
    ensures
        match res {
            Ok(path) => path == path_of(raw@) && path_text(path) == raw@,
            Err(err) => err matches ToolError::PathEscape(p) && p@ == raw@ && has_two_dots(raw@),
        },
        !has_two_dots(raw@) ==> res is Ok,
        is_plain_path(raw@) ==> (res is Err <==> has_parent_segment(raw@)),
{
    let parts = path_parts(raw);
    if has_parent_dir(&parts) {
        return Err(ToolError::PathEscape(raw.to_string()));
    }
    Ok(path_buf(raw))
}

/// The text that `String::from_utf8_lossy` reads from bytes: valid UTF-8
/// as it is, each invalid sequence as U+FFFD.
pub uninterp spec fn utf8_lossy(bytes: Seq<u8>) -> Seq<char>;

/// `String::from_utf8_lossy(bytes).into_owned()`.
#[verifier::external_body]
fn lossy_text(bytes: &[u8]) -> (res: String)
    ensures
        res@ == utf8_lossy(bytes@),
{
    String::from_utf8_lossy(bytes).into_owned()
}

/// What the shell tool replies for a finished command: its output, or the
/// error of a failed command.
pub open spec fn shell_reply_view(
    success: bool,
    code: Option<i32>,
    stdout: Seq<u8>,
    stderr: Seq<u8>,
) -> Result<Seq<char>, (i32, Seq<char>)> {
    let out = utf8_lossy(stdout);
    let err = utf8_lossy(stderr);
    if !success {
        Err(
            (
                match code {
                    Some(c) => c,
                    None => -1i32,
                },
                err,
            ),
        )
    } else if err.len() == 0 {
        Ok(out)
    } else if out.len() == 0 {
        Ok(err)
    } else {
        Ok(out + seq!['\n'] + err)
    }
}

/// A command that succeeded is answered with its whole standard output
/// first, then, where there is any, its whole error output, with one newline
/// between the two where both hold something. A command that failed is
/// answered with its exit code (`-1` where it has none) and its error
/// output.
pub proof fn shell_reply_keeps_both_outputs(
    success: bool,
    code: Option<i32>,
    stdout: Seq<u8>,
    stderr: Seq<u8>,
)
    ensures
        success ==> shell_reply_view(success, code, stdout, stderr) is Ok,
        success ==> shell_reply_view(success, code, stdout, stderr)->Ok_0.take(
            utf8_lossy(stdout).len() as int,
        ) == utf8_lossy(stdout),
        success ==> shell_reply_view(success, code, stdout, stderr)->Ok_0.len() == utf8_lossy(
            stdout,
        ).len() + utf8_lossy(stderr).len() + if utf8_lossy(stdout).len() > 0 && utf8_lossy(
            stderr,
        ).len() > 0 {
            1int
        } else {
            0int
        },
        success ==> shell_reply_view(success, code, stdout, stderr)->Ok_0.skip(
            shell_reply_view(success, code, stdout, stderr)->Ok_0.len() - utf8_lossy(stderr).len(),
        ) == utf8_lossy(stderr),
        success && utf8_lossy(stdout).len() > 0 && utf8_lossy(stderr).len() > 0 ==> shell_reply_view(
            success,
            code,
            stdout,
            stderr,
        )->Ok_0[utf8_lossy(stdout).len() as int] == '\n',
        !success ==> shell_reply_view(success, code, stdout, stderr) is Err,
        !success ==> shell_reply_view(success, code, stdout, stderr)->Err_0.1 == utf8_lossy(stderr),
        !success && code is Some ==> shell_reply_view(success, code, stdout, stderr)->Err_0.0
            == code->0,
        !success && code is None ==> shell_reply_view(success, code, stdout, stderr)->Err_0.0 == -1,
{
    let out = utf8_lossy(stdout);
    let err = utf8_lossy(stderr);
    if success && err.len() > 0 && out.len() > 0 {
        let t = out + seq!['\n'] + err;
        assert(t.take(out.len() as int) =~= out);
        assert(t.skip(t.len() - err.len()) =~= err);
    } else if success && err.len() > 0 {
        assert(err.take(0) =~= out);
        assert(err.skip(0) =~= err);
    } else if success {
        assert(out.take(out.len() as int) =~= out);
        assert(out.skip(out.len() as int) =~= err);
    }
}

/// The shell tool's reply for a command that ran: on failure the exit code
/// (`-1` where a signal ended it) and its error output; on success its
/// standard output, then its error output, on a line of its own where both
/// hold something.
pub fn shell_reply(success: bool, code: Option<i32>, stdout: &[u8], stderr: &[u8]) -> (res:
    Result<String, ToolError>)
    ensures
        match shell_reply_view(success, code, stdout@, stderr@) {
            Ok(text) => res matches Ok(r) && r@ == text,
            Err((status, text)) => res matches Err(e) && e matches ToolError::CommandFailed {
                status: s,
                stderr: t,
            } && s == status && t@ == text,
        },
{
    let out = lossy_text(stdout);
    let err = lossy_text(stderr);
    if !success {
        let status = match code {
            Some(c) => c,
            None => -1,
        };
        return Err(ToolError::CommandFailed { status, stderr: err });
    }
    let mut combined = out;
    if err.as_str().unicode_len() > 0 {
        if combined.as_str().unicode_len() > 0 {
            proof {
                reveal_strlit("\n");
            }
            combined.append("\n");
        }
        combined.append(err.as_str());
    }
    proof {
        if err@.len() > 0 && out@.len() == 0 {
            assert(combined@ =~= err@);
        }
    }
    Ok(combined)
}

} // verus!
