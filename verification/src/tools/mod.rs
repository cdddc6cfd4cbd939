//! The tool abstraction, the registry of tools, and the built-in tools.
pub mod calculator;
pub mod fetch_url;
pub mod file_search;
pub mod sys_info;

use vstd::prelude::*;
use crate::json::{JsonModel, JsonValue, array, items_model, member, members_model, object};
use crate::protocol::{ToolDefinition, tool_definition_view};
use crate::text::owned;
use self::calculator::{CalculatorTool, calculator_definition};
use self::fetch_url::{FetchUrlTool, fetch_url_definition};
use self::file_search::{FileSearchTool, file_search_definition};
use self::sys_info::{SysInfoTool, sys_info_definition};

verus! {

/// A tool that can be listed and looked up by its unique name.
pub trait Tool: Sized {
    /// The name the tool is registered under.
    spec fn tool_name(&self) -> Seq<char>;

    /// Unique identifier of the tool.
    fn name(&self) -> (r: String)
        ensures
            r@ == self.tool_name(),
    ;

    /// The tool's definition as (name, description, input schema).
    spec fn tool_definition(&self) -> (Seq<char>, Option<Seq<char>>, JsonModel);

    /// The MCP definition of the tool (including input schema).
    fn definition(&self) -> (d: ToolDefinition)
        ensures
            d.name@ == self.tool_name(),
            tool_definition_view(d) == self.tool_definition(),
    ;
}

/// The built-in tools.
#[derive(Debug)]
pub enum BuiltinTool {
    SysInfo(SysInfoTool),
    Calculator(CalculatorTool),
    FileSearch(FileSearchTool),
    FetchUrl(FetchUrlTool),
}

impl Tool for BuiltinTool {
    open spec fn tool_name(&self) -> Seq<char> {
        match self {
            BuiltinTool::SysInfo(t) => t.tool_name(),
            BuiltinTool::Calculator(t) => t.tool_name(),
            BuiltinTool::FileSearch(t) => t.tool_name(),
            BuiltinTool::FetchUrl(t) => t.tool_name(),
        }
    }

    open spec fn tool_definition(&self) -> (Seq<char>, Option<Seq<char>>, JsonModel) {
        match self {
            BuiltinTool::SysInfo(t) => t.tool_definition(),
            BuiltinTool::Calculator(t) => t.tool_definition(),
            BuiltinTool::FileSearch(t) => t.tool_definition(),
            BuiltinTool::FetchUrl(t) => t.tool_definition(),
        }
    }

    fn name(&self) -> (r: String) {
        match self {
            BuiltinTool::SysInfo(t) => t.name(),
            BuiltinTool::Calculator(t) => t.name(),
            BuiltinTool::FileSearch(t) => t.name(),
            BuiltinTool::FetchUrl(t) => t.name(),
        }
    }

    fn definition(&self) -> (d: ToolDefinition) {
        match self {
            BuiltinTool::SysInfo(t) => t.definition(),
            BuiltinTool::Calculator(t) => t.definition(),
            BuiltinTool::FileSearch(t) => t.definition(),
            BuiltinTool::FetchUrl(t) => t.definition(),
        }
    }
}

/// The names of the built-in tools.
pub open spec fn is_builtin_name(name: Seq<char>) -> bool {
    name == "sys_info"@ || name == "calculator"@ || name == "file_search"@ || name == "fetch_url"@
}

/// A registry of tools, each under its own name.
pub struct ToolRegistry<T> {
    tools: Vec<(String, ToolDefinition, T)>,
}

impl<T: Tool> ToolRegistry<T> {
    /// The registered names, in registration order.
    pub closed spec fn names(self) -> Seq<Seq<char>> {
        Seq::new(self.tools@.len(), |i: int| self.tools@[i].0@)
    }

    /// The tool registered under `name`.
    pub closed spec fn tool(self, name: Seq<char>) -> Option<T> {
        if exists|i: int| 0 <= i < self.tools@.len() && self.tools@[i].0@ == name {
            let i = choose|i: int| 0 <= i < self.tools@.len() && self.tools@[i].0@ == name;
            Some(self.tools@[i].2)
        } else {
            None
        }
    }

    /// The definition listed for the tool at position `i`.
    pub closed spec fn listed(self, i: int) -> (Seq<char>, Option<Seq<char>>, JsonModel) {
        tool_definition_view(self.tools@[i].1)
    }

    /// The listed definitions, in registration order.
    pub closed spec fn definitions(self) -> Seq<(Seq<char>, Option<Seq<char>>, JsonModel)> {
        Seq::new(self.tools@.len(), |i: int| self.listed(i))
    }

    /// Each name occurs once, and each listed definition is the definition
    /// of its tool, under the tool's name.
    pub closed spec fn wf(self) -> bool {
        &&& forall|i: int, j: int|
            0 <= i < j < self.tools@.len() ==> self.tools@[i].0@ != self.tools@[j].0@
        &&& forall|i: int|
            0 <= i < self.tools@.len() ==> (#[trigger] self.tools@[i]).0@ == self.tools@[i].2.tool_name()
                && self.tools@[i].1.name@ == self.tools@[i].0@
                && tool_definition_view(self.tools@[i].1) == self.tools@[i].2.tool_definition()
    }

    /// An empty registry.
    pub fn empty() -> (r: Self)
        ensures
            r.wf(),
            r.names() == Seq::<Seq<char>>::empty(),
    {
        let r = ToolRegistry { tools: Vec::new() };
        assert(r.names() =~= Seq::<Seq<char>>::empty());
        r
    }

    /// A registered tool is found under its own name.
    pub proof fn lemma_tool_named(self, name: Seq<char>)
        requires
            self.wf(),
            self.tool(name) is Some,
        ensures
            self.tool(name)->0.tool_name() == name,
    {
        let i = choose|i: int| 0 <= i < self.tools@.len() && self.tools@[i].0@ == name;
        assert(self.tools@[i].0@ == self.tools@[i].2.tool_name());
    }

    /// A registered name leads to its tool.
    pub proof fn lemma_registered_name_has_tool(self, name: Seq<char>)
        requires
            self.wf(),
            self.names().contains(name),
        ensures
            self.tool(name) is Some,
    {
        let i = choose|i: int| 0 <= i < self.names().len() && self.names()[i] == name;
        assert(self.tools@[i].0@ == name);
    }

    /// A registry holds a tool under a name exactly when the name is
    /// registered: a name that was never registered has no tool.
    pub proof fn lemma_tool_iff_registered(self)
        ensures
            forall|n: Seq<char>| #[trigger] self.tool(n) is Some <==> self.names().contains(n),
    {
        assert forall|n: Seq<char>| #[trigger] self.tool(n) is Some <==> self.names().contains(n) by {
            if self.names().contains(n) {
                let i = choose|i: int| 0 <= i < self.names().len() && self.names()[i] == n;
                assert(self.tools@[i].0@ == n);
            }
            if self.tool(n) is Some {
                let i = choose|i: int| 0 <= i < self.tools@.len() && self.tools@[i].0@ == n;
                assert(self.names()[i] == n);
            }
        }
    }

    /// Register a new tool, replacing any tool of the same name.
    pub fn register(&mut self, tool: T)
        requires
            old(self).wf(),
        ensures
            final(self).wf(),
            final(self).tool(tool.tool_name()) == Some(tool),
            forall|n: Seq<char>| n != tool.tool_name() ==> final(self).tool(n) == old(self).tool(n),
            old(self).names().contains(tool.tool_name()) ==> final(self).names() == old(self).names(),
            !old(self).names().contains(tool.tool_name()) ==> final(self).names() == old(self).names().push(tool.tool_name()),
            final(self).names().len() == old(self).names().len() + if old(self).tool(tool.tool_name()) is Some { 0int } else { 1int },
            old(self).names().contains(tool.tool_name()) ==> final(self).definitions() == Seq::new(
                old(self).definitions().len(),
                |i: int| if old(self).names()[i] == tool.tool_name() { tool.tool_definition() } else { old(self).definitions()[i] },
            ),
            !old(self).names().contains(tool.tool_name()) ==> final(self).definitions() == old(self).definitions().push(tool.tool_definition()),
    {
        let ghost start = *self;
        proof {
            start.lemma_tool_iff_registered();
        }
        let name = tool.name();
        let def = tool.definition();
        let mut i: usize = 0;
        while i < self.tools.len()
            invariant
                self.wf(),
                name@ == tool.tool_name(),
                def.name@ == name@,
                tool_definition_view(def) == tool.tool_definition(),
                i <= self.tools@.len(),
                *self == *old(self),
                forall|k: int| 0 <= k < i ==> self.tools@[k].0@ != name@,
            decreases self.tools@.len() - i,
        {
            if self.tools[i].0 == name {
                let ghost before = *self;
                self.tools.set(i, (name, def, tool));
                proof {
                    assert(self.names() =~= before.names());
                    assert(self.tools@[i as int].0@ == tool.tool_name());
                    assert forall|n: Seq<char>| n != tool.tool_name() implies self.tool(n) == before.tool(n) by {
                        if exists|k: int| 0 <= k < self.tools@.len() && self.tools@[k].0@ == n {
                            let k = choose|k: int| 0 <= k < self.tools@.len() && self.tools@[k].0@ == n;
                            assert(before.tools@[k].0@ == n);
                        }
                        if exists|k: int| 0 <= k < before.tools@.len() && before.tools@[k].0@ == n {
                            let k = choose|k: int| 0 <= k < before.tools@.len() && before.tools@[k].0@ == n;
                            assert(self.tools@[k].0@ == n);
                        }
                    }
                    assert(before.names()[i as int] == tool.tool_name());
                    assert forall|k: int| 0 <= k < before.tools@.len() && k != i as int implies before.names()[k] != tool.tool_name() by {
                        assert(before.tools@[k].0@ != before.tools@[i as int].0@);
                    }
                    assert(self.definitions() =~= Seq::new(
                        before.definitions().len(),
                        |k: int| if before.names()[k] == tool.tool_name() { tool.tool_definition() } else { before.definitions()[k] },
                    ));
                }
                return;
            }
            i = i + 1;
        }
        let ghost before = *self;
        self.tools.push((name, def, tool));
        proof {
            assert(self.names() =~= before.names().push(tool.tool_name()));
            assert(!before.names().contains(tool.tool_name())) by {
                if before.names().contains(tool.tool_name()) {
                    let k = choose|k: int| 0 <= k < before.names().len() && before.names()[k] == tool.tool_name();
                    assert(before.tools@[k].0@ == tool.tool_name());
                }
            }
            let last = self.tools@.len() - 1;
            assert(self.tools@[last].0@ == tool.tool_name());
            assert(self.definitions() =~= before.definitions().push(tool.tool_definition()));
            assert forall|n: Seq<char>| n != tool.tool_name() implies self.tool(n) == before.tool(n) by {
                if exists|k: int| 0 <= k < self.tools@.len() && self.tools@[k].0@ == n {
                    let k = choose|k: int| 0 <= k < self.tools@.len() && self.tools@[k].0@ == n;
                    assert(k < last);
                    assert(before.tools@[k].0@ == n);
                }
                if exists|k: int| 0 <= k < before.tools@.len() && before.tools@[k].0@ == n {
                    let k = choose|k: int| 0 <= k < before.tools@.len() && before.tools@[k].0@ == n;
                    assert(self.tools@[k].0@ == n);
                }
            }
        }
    }

    /// Retrieve a reference to a registered tool by name.
    pub fn get(&self, name: &str) -> (r: Option<&T>)
        requires
            self.wf(),
        ensures
            match r {
                Some(t) => self.tool(name@) == Some(*t) && t.tool_name() == name@,
                None => self.tool(name@) is None,
            },
    {
        let key = owned(name);
        let mut i: usize = 0;
        while i < self.tools.len()
            invariant
                self.wf(),
                key@ == name@,
                i <= self.tools@.len(),
                forall|k: int| 0 <= k < i ==> self.tools@[k].0@ != name@,
            decreases self.tools@.len() - i,
        {
            if self.tools[i].0 == key {
                proof {
                    let k = choose|k: int| 0 <= k < self.tools@.len() && self.tools@[k].0@ == name@;
                    assert(k == i as int);
                }
                return Some(&self.tools[i].2);
            }
            i = i + 1;
        }
        None
    }

    /// Return definition metadata of all registered tools, in registration
    /// order.
    pub fn list_definitions(&self) -> (r: Vec<ToolDefinition>)
        requires
            self.wf(),
        ensures
            r@.len() == self.names().len(),
            r@.len() == self.definitions().len(),
            forall|i: int| 0 <= i < r@.len() ==> tool_definition_view(#[trigger] r@[i]) == self.definitions()[i],
            forall|i: int| 0 <= i < r@.len() ==> tool_definition_view(#[trigger] r@[i]) == self.listed(i),
            forall|i: int| 0 <= i < r@.len() ==> (#[trigger] r@[i]).name@ == self.names()[i],
    {
        let mut out: Vec<ToolDefinition> = Vec::new();
        let mut i: usize = 0;
        while i < self.tools.len()
            invariant
                self.wf(),
                i <= self.tools@.len(),
                out@.len() == i,
                forall|k: int| 0 <= k < i ==> tool_definition_view(#[trigger] out@[k]) == self.listed(k),
            decreases self.tools@.len() - i,
        {
            out.push(self.tools[i].1.clone());
            i = i + 1;
        }
        proof {
            assert forall|k: int| 0 <= k < out@.len() implies (#[trigger] out@[k]).name@ == self.names()[k] by {
                assert(tool_definition_view(out@[k]) == self.listed(k));
                assert(self.tools@[k].1.name@ == self.tools@[k].0@);
            }
        }
        out
    }
}

impl ToolRegistry<BuiltinTool> {
    /// Create a new registry and register all default tools.
    pub fn new() -> (r: Self)
        ensures
            r.wf(),
            r.names() == seq!["sys_info"@, "calculator"@, "file_search"@, "fetch_url"@],
            r.definitions() == seq![sys_info_definition(), calculator_definition(), file_search_definition(), fetch_url_definition()],
            forall|n: Seq<char>| #[trigger] r.tool(n) is Some <==> is_builtin_name(n),
    {
        proof {
            reveal_strlit("sys_info");
            reveal_strlit("calculator");
            reveal_strlit("file_search");
            reveal_strlit("fetch_url");
        }
        assert("sys_info"@[0] == 's' && "calculator"@[0] == 'c' && "file_search"@[0] == 'f' && "fetch_url"@[0] == 'f');
        assert("file_search"@[1] == 'i' && "fetch_url"@[1] == 'e');
        assert("sys_info"@ != "calculator"@);
        assert("sys_info"@ != "file_search"@);
        assert("sys_info"@ != "fetch_url"@);
        assert("calculator"@ != "file_search"@);
        assert("calculator"@ != "fetch_url"@);
        assert("file_search"@ != "fetch_url"@);
        let mut registry = Self::empty();
        registry.register(BuiltinTool::SysInfo(SysInfoTool::new()));
        assert(registry.names() =~= seq!["sys_info"@]);
        assert(!registry.names().contains("calculator"@));
        registry.register(BuiltinTool::Calculator(CalculatorTool::new()));
        assert(registry.names() =~= seq!["sys_info"@, "calculator"@]);
        assert(!registry.names().contains("file_search"@));
        registry.register(BuiltinTool::FileSearch(FileSearchTool::new()));
        assert(registry.names() =~= seq!["sys_info"@, "calculator"@, "file_search"@]);
        assert(!registry.names().contains("fetch_url"@));
        registry.register(BuiltinTool::FetchUrl(FetchUrlTool::new()));
        assert(registry.definitions() =~= seq![sys_info_definition(), calculator_definition(), file_search_definition(), fetch_url_definition()]);
        proof {
            registry.lemma_tool_iff_registered();
            let names = seq!["sys_info"@, "calculator"@, "file_search"@, "fetch_url"@];
            assert(registry.names() == names);
            assert forall|n: Seq<char>| names.contains(n) <==> is_builtin_name(n) by {
                if is_builtin_name(n) {
                    if n == "sys_info"@ { assert(names[0] == n); }
                    else if n == "calculator"@ { assert(names[1] == n); }
                    else if n == "file_search"@ { assert(names[2] == n); }
                    else { assert(names[3] == n); }
                }
            }
        }
        registry
    }
}

impl Default for ToolRegistry<BuiltinTool> {
    fn default() -> (r: Self)
        ensures
            r.wf(),
            r.names() == seq!["sys_info"@, "calculator"@, "file_search"@, "fetch_url"@],
            r.definitions() == seq![sys_info_definition(), calculator_definition(), file_search_definition(), fetch_url_definition()],
            forall|n: Seq<char>| #[trigger] r.tool(n) is Some <==> is_builtin_name(n),
    {
        Self::new()
    }
}

// ---------------------------------------------------------------------------
// Input schemas
// ---------------------------------------------------------------------------

/// `{"type": "string", "description": d}`
pub open spec fn string_property(description: Seq<char>) -> JsonModel {
    JsonModel::Object(seq![("type"@, JsonModel::String("string"@)), ("description"@, JsonModel::String(description))])
}

/// `{"type": "object", "properties": {...}, "required": [...]}`, without
/// `required` when nothing is required.
pub open spec fn object_schema(properties: Seq<(Seq<char>, JsonModel)>, required: Seq<Seq<char>>) -> JsonModel {
    JsonModel::Object(
        seq![("type"@, JsonModel::String("object"@)), ("properties"@, JsonModel::Object(properties))]
        + if required.len() > 0 {
            seq![("required"@, JsonModel::Array(Seq::new(required.len(), |i: int| JsonModel::String(required[i]))))]
        } else {
            seq![]
        },
    )
}

pub fn string_property_value(description: &str) -> (r: JsonValue)
    ensures
        r@ == string_property(description@),
{
    let es = vec![member("type", JsonValue::string("string")), member("description", JsonValue::string(description))];
    let r = object(es);
    proof {
        assert(members_model(es@) =~= string_property(description@)->Object_0);
    }
    r
}

pub fn object_schema_value(properties: Vec<(String, JsonValue)>, required: Vec<String>) -> (r: JsonValue)
    ensures
        r@ == object_schema(members_model(properties@), Seq::new(required@.len(), |i: int| required@[i]@)),
{
    let ghost pm = members_model(properties@);
    let ghost rm = Seq::new(required@.len(), |i: int| required@[i]@);
    let props = object(properties);
    let mut es = vec![member("type", JsonValue::string("object")), member("properties", props)];
    if required.len() > 0 {
        let mut items: Vec<JsonValue> = Vec::new();
        let mut i: usize = 0;
        while i < required.len()
            invariant
                i <= required@.len(),
                items@.len() == i,
                forall|k: int| 0 <= k < i ==> (#[trigger] items@[k])@ == JsonModel::String(required@[k]@),
            decreases required@.len() - i,
        {
            items.push(JsonValue::String(required[i].clone()));
            i = i + 1;
        }
        let list = array(items);
        proof {
            assert(items_model(items@) =~= Seq::new(rm.len(), |i: int| JsonModel::String(rm[i])));
        }
        es.push(member("required", list));
    }
    let r = object(es);
    proof {
        assert(members_model(es@) =~= object_schema(pm, rm)->Object_0);
    }
    r
}

} // verus!
