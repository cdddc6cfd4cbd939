//! The `file_search` tool: regex search through the text files of a
//! directory tree.
use vstd::prelude::*;
use crate::json::{JsonModel, JsonNumber, JsonValue, array, items_model, member, members_model, object};
use crate::pattern::{Pattern, compile, is_match, regex_compiles, regex_is_match, regex_new_error};
use crate::protocol::{ToolCallResult, ToolDefinition};
use crate::text::{concat, concat3, owned, str_eq, trim, trim_spec};
use super::{Tool, object_schema, object_schema_value, string_property, string_property_value};

verus! {

#[derive(Debug, Clone, Copy)]
pub struct FileSearchTool;

impl FileSearchTool {
    pub fn new() -> (r: Self)
        ensures
            r == FileSearchTool,
    {
        FileSearchTool
    }
}

impl Default for FileSearchTool {
    fn default() -> (r: Self)
        ensures
            r == FileSearchTool,
    {
        Self::new()
    }
}

pub open spec fn file_search_schema() -> JsonModel {
    object_schema(
        seq![
            ("dir"@, string_property("Absolute directory path to search, e.g. '/home/xinference/github/ParaMCP'"@)),
            ("pattern"@, string_property("Regex pattern to look for inside file contents"@)),
            ("extension"@, string_property("Optional file extension filter, e.g. 'rs' or 'toml'"@)),
        ],
        seq!["dir"@, "pattern"@],
    )
}

/// The definition of `file_search`: its name, description and input schema.
pub open spec fn file_search_definition() -> (Seq<char>, Option<Seq<char>>, JsonModel) {
    ("file_search"@, Some("Search for exact regex patterns inside text files in a directory recursively."@), file_search_schema())
}

impl Tool for FileSearchTool {
    open spec fn tool_name(&self) -> Seq<char> {
        "file_search"@
    }

    open spec fn tool_definition(&self) -> (Seq<char>, Option<Seq<char>>, JsonModel) {
        file_search_definition()
    }

    fn name(&self) -> (r: String) {
        owned("file_search")
    }

    fn definition(&self) -> (d: ToolDefinition) {
        let props = vec![
            (owned("dir"), string_property_value("Absolute directory path to search, e.g. '/home/xinference/github/ParaMCP'")),
            (owned("pattern"), string_property_value("Regex pattern to look for inside file contents")),
            (owned("extension"), string_property_value("Optional file extension filter, e.g. 'rs' or 'toml'")),
        ];
        let required = vec![owned("dir"), owned("pattern")];
        let schema = object_schema_value(props, required);
        proof {
            assert(members_model(props@) =~= file_search_schema()->Object_0[1].1->Object_0);
            assert(Seq::new(required@.len(), |i: int| required@[i]@) =~= seq!["dir"@, "pattern"@]);
        }
        ToolDefinition {
            name: owned("file_search"),
            description: Some(owned("Search for exact regex patterns inside text files in a directory recursively.")),
            input_schema: schema,
        }
    }
}


/// At most this many matching lines are reported.
pub const MAX_MATCHES: usize = 100;

/// The arguments of a search.
#[derive(Debug, Clone)]
pub struct SearchRequest {
    pub dir: String,
    pub pattern: String,
    pub extension: Option<String>,
}

/// `Error: Missing required argument '<name>'`
pub open spec fn missing_arg_text(name: Seq<char>) -> Seq<char> {
    "Error: Missing required argument '"@ + name + "'"@
}

/// An error result for a missing argument.
pub fn missing_arg(name: &str) -> (r: ToolCallResult)
    ensures
        r.is_text(missing_arg_text(name@), true),
{
    ToolCallResult::text(concat3("Error: Missing required argument '", name, "'"), true)
}

/// An error result: `Error: ` and the message.
pub fn error_result(msg: &str) -> (r: ToolCallResult)
    ensures
        r.is_text("Error: "@ + msg@, true),
{
    ToolCallResult::text(concat("Error: ", msg), true)
}

pub open spec fn arg_str(arguments: Option<JsonModel>, key: Seq<char>) -> Option<Seq<char>> {
    match arguments {
        Some(a) => a.get_str(key),
        None => None,
    }
}

impl FileSearchTool {
    /// Reads the arguments: `dir` and `pattern` are required strings, in
    /// that order; `extension` is an optional string.
    pub fn prepare(&self, arguments: Option<&JsonValue>) -> (r: Result<SearchRequest, ToolCallResult>)
        ensures
            ({
                let a = match arguments { Some(v) => Some(v@), None => None };
                match (arg_str(a, "dir"@), arg_str(a, "pattern"@)) {
                    (None, _) => r matches Err(e) && e.is_text(missing_arg_text("dir"@), true),
                    (Some(_), None) => r matches Err(e) && e.is_text(missing_arg_text("pattern"@), true),
                    (Some(d), Some(p)) => r matches Ok(req) && req.dir@ == d && req.pattern@ == p
                        && match arg_str(a, "extension"@) {
                            Some(x) => req.extension matches Some(e) && e@ == x,
                            None => req.extension is None,
                        },
                }
            }),
    {
        let get = |key: &str| -> (r: Option<&str>)
            ensures
                match r {
                    Some(s) => arg_str(match arguments { Some(v) => Some(v@), None => None }, key@) == Some(s@),
                    None => arg_str(match arguments { Some(v) => Some(v@), None => None }, key@) is None,
                },
            {
                match arguments {
                    Some(a) => a.get_str(key),
                    None => None,
                }
            };
        let dir = match get("dir") {
            Some(d) => d,
            None => return Err(missing_arg("dir")),
        };
        let pattern = match get("pattern") {
            Some(p) => p,
            None => return Err(missing_arg("pattern")),
        };
        let extension = match get("extension") {
            Some(e) => Some(owned(e)),
            None => None,
        };
        Ok(SearchRequest { dir: owned(dir), pattern: owned(pattern), extension })
    }

    /// The result for a `dir` that is not an existing directory.
    pub fn not_a_directory(dir: &str) -> (r: ToolCallResult)
        ensures
            r.is_text("Error: Directory does not exist or is not a directory: "@ + dir@, true),
    {
        let msg = concat("Directory does not exist or is not a directory: ", dir);
        let r = error_result(msg.as_str());
        proof {
            assert("Error: "@ + msg@ == "Error: Directory does not exist or is not a directory: "@ + dir@) by {
                reveal_strlit("Error: ");
                reveal_strlit("Directory does not exist or is not a directory: ");
                reveal_strlit("Error: Directory does not exist or is not a directory: ");
                assert("Error: "@ + "Directory does not exist or is not a directory: "@ =~= "Error: Directory does not exist or is not a directory: "@);
            }
        }
        r
    }

    /// Compiles the search pattern; an invalid one gives an error result.
    pub fn compile_pattern(pattern: &str) -> (r: Result<Pattern, ToolCallResult>)
        ensures
            r is Ok <==> regex_compiles(pattern@),
            r matches Ok(p) ==> p@ == pattern@,
            r matches Err(e) ==> e.is_text("Error: "@ + ("Invalid regex pattern: "@ + regex_new_error(pattern@)->0), true),
    {
        match compile(pattern) {
            Ok(p) => Ok(p),
            Err(e) => {
                let msg = concat("Invalid regex pattern: ", e.as_str());
                Err(error_result(msg.as_str()))
            },
        }
    }

    /// The result when walking the directory failed.
    pub fn search_failed(detail: &str) -> (r: ToolCallResult)
        ensures
            r.is_text("Error: "@ + ("Error searching files: "@ + detail@), true),
    {
        let msg = concat("Error searching files: ", detail);
        error_result(msg.as_str())
    }
}

/// A directory is skipped when its name starts with `.` or is `target`.
pub open spec fn skipped_directory(name: Option<Seq<char>>) -> bool {
    match name {
        Some(n) => (n.len() > 0 && n[0] == '.') || n == "target"@,
        None => false,
    }
}

/// Whether to skip a directory (hidden ones, and build output), given its
/// name as text when it has one.
pub fn skip_directory(name: Option<&str>) -> (r: bool)
    ensures
        r == skipped_directory(match name { Some(n) => Some(n@), None => None }),
{
    match name {
        Some(n) => {
            let cs = crate::text::chars_of(n);
            (cs.len() > 0 && cs[0] == '.') || str_eq(n, "target")
        },
        None => false,
    }
}

/// Whether a file passes the extension filter: every file when there is no
/// filter, else only files whose extension is the filter.
pub fn extension_selected(filter: Option<&str>, extension: Option<&str>) -> (r: bool)
    ensures
        r == match filter {
            None => true,
            Some(f) => extension matches Some(e) && e@ == f@,
        },
{
    match filter {
        None => true,
        Some(f) => match extension {
            Some(e) => str_eq(e, f),
            None => false,
        },
    }
}

/// A file is taken for binary when a zero byte occurs among its first bytes.
pub fn has_zero_byte(prefix: &[u8]) -> (r: bool)
    ensures
        r == exists|k: int| 0 <= k < prefix@.len() && prefix@[k] == 0,
{
    let mut i: usize = 0;
    while i < prefix.len()
        invariant
            i <= prefix@.len(),
            forall|k: int| 0 <= k < i ==> prefix@[k] != 0,
        decreases prefix@.len() - i,
    {
        if prefix[i] == 0 {
            return true;
        }
        i = i + 1;
    }
    false
}

/// One reported line: `{"file", "line", "content"}`, the content without
/// surrounding white space.
pub open spec fn match_json(file: Seq<char>, line: nat, content: Seq<char>) -> JsonModel {
    JsonModel::Object(seq![
        ("file"@, JsonModel::String(file)),
        ("line"@, JsonModel::Number(JsonNumber::PosInt(line as u64))),
        ("content"@, JsonModel::String(trim_spec(content))),
    ])
}

/// The lines found so far, up to a limit.
pub struct SearchMatches {
    matches: Vec<JsonValue>,
    max: usize,
}

impl SearchMatches {
    pub closed spec fn found(self) -> Seq<JsonModel> {
        items_model(self.matches@)
    }

    pub closed spec fn limit(self) -> nat {
        self.max as nat
    }

    /// No more matches are kept than the limit allows.
    #[verifier::type_invariant]
    spec fn within_limit(self) -> bool {
        self.matches@.len() <= self.max
    }

    pub fn new(max: usize) -> (r: Self)
        ensures
            r.found() == Seq::<JsonModel>::empty(),
            r.limit() == max,
    {
        let r = SearchMatches { matches: Vec::new(), max };
        assert(r.found() =~= Seq::<JsonModel>::empty());
        r
    }

    /// Whether the limit is reached: no more lines are searched.
    pub fn is_full(&self) -> (r: bool)
        ensures
            r == (self.found().len() >= self.limit()),
    {
        self.matches.len() >= self.max
    }

    /// Records line `index` (counting from 0) of `file` when the limit is
    /// not reached yet and the pattern matches the line; once the limit is
    /// reached, no line is searched.
    pub fn record_line(&mut self, pattern: &Pattern, file: &str, index: usize, line: &str)
        requires
            index < u64::MAX,
        ensures
            final(self).limit() == old(self).limit(),
            final(self).found().len() <= final(self).limit(),
            old(self).found().len() >= old(self).limit() ==> final(self).found() == old(self).found(),
            old(self).found().len() < old(self).limit() && regex_is_match(pattern@, line@)
                ==> final(self).found() == old(self).found().push(match_json(file@, (index + 1) as nat, line@)),
            !regex_is_match(pattern@, line@) ==> final(self).found() == old(self).found(),
    {
        proof {
            use_type_invariant(&*self);
        }
        if self.matches.len() >= self.max {
            return;
        }
        if is_match(pattern, line) {
            let es = vec![
                member("file", JsonValue::string(file)),
                member("line", JsonValue::Number(JsonNumber::PosInt(index as u64 + 1))),
                member("content", JsonValue::String(trim(line))),
            ];
            let m = object(es);
            proof {
                assert(members_model(es@) =~= match_json(file@, (index + 1) as nat, line@)->Object_0);
            }
            let ghost before = self.found();
            let mut kept: Vec<JsonValue> = Vec::new();
            std::mem::swap(&mut kept, &mut self.matches);
            kept.push(m);
            self.matches = kept;
            proof {
                assert(self.found() =~= before.push(m@));
            }
        }
    }

    /// The report: `{"dir", "pattern", "matches_count", "matches"}`.
    pub fn report(self, dir: &str, pattern: &str) -> (r: JsonValue)
        ensures
            self.found().len() <= self.limit(),
            r@ == JsonModel::Object(seq![
                ("dir"@, JsonModel::String(dir@)),
                ("pattern"@, JsonModel::String(pattern@)),
                ("matches_count"@, JsonModel::Number(JsonNumber::PosInt(self.found().len() as u64))),
                ("matches"@, JsonModel::Array(self.found())),
            ]),
    {
        proof {
            use_type_invariant(&self);
        }
        let ghost found = self.found();
        let count = self.matches.len() as u64;
        let list = array(self.matches);
        let es = vec![
            member("dir", JsonValue::string(dir)),
            member("pattern", JsonValue::string(pattern)),
            member("matches_count", JsonValue::Number(JsonNumber::PosInt(count))),
            member("matches", list),
        ];
        let r = object(es);
        proof {
            assert(members_model(es@) =~= seq![
                ("dir"@, JsonModel::String(dir@)),
                ("pattern"@, JsonModel::String(pattern@)),
                ("matches_count"@, JsonModel::Number(JsonNumber::PosInt(found.len() as u64))),
                ("matches"@, JsonModel::Array(found)),
            ]);
        }
        r
    }
}

} // verus!
