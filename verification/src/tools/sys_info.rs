//! The `sys_info` tool: a report of host metrics.
use vstd::prelude::*;
use crate::json::{JsonModel, JsonNumber, JsonValue, member, members_model, object};
use crate::protocol::ToolDefinition;
use crate::text::{concat, concat3, owned};
use super::{Tool, object_schema, object_schema_value};

verus! {

#[derive(Debug, Clone, Copy)]
pub struct SysInfoTool;

impl SysInfoTool {
    pub fn new() -> (r: Self)
        ensures
            r == SysInfoTool,
    {
        SysInfoTool
    }
}

impl Default for SysInfoTool {
    fn default() -> (r: Self)
        ensures
            r == SysInfoTool,
    {
        Self::new()
    }
}

pub open spec fn sys_info_schema() -> JsonModel {
    object_schema(seq![], seq![])
}

/// The definition of `sys_info`: its name, description and input schema.
pub open spec fn sys_info_definition() -> (Seq<char>, Option<Seq<char>>, JsonModel) {
    ("sys_info"@, Some("Fetch high-performance system metrics (CPU load, memory usage, host details)."@), sys_info_schema())
}

impl Tool for SysInfoTool {
    open spec fn tool_name(&self) -> Seq<char> {
        "sys_info"@
    }

    open spec fn tool_definition(&self) -> (Seq<char>, Option<Seq<char>>, JsonModel) {
        sys_info_definition()
    }

    fn name(&self) -> (r: String) {
        owned("sys_info")
    }

    fn definition(&self) -> (d: ToolDefinition) {
        let props: Vec<(String, JsonValue)> = Vec::new();
        let required: Vec<String> = Vec::new();
        let schema = object_schema_value(props, required);
        proof {
            assert(crate::json::members_model(props@) =~= Seq::<(Seq<char>, JsonModel)>::empty());
            assert(Seq::new(required@.len(), |i: int| required@[i]@) =~= Seq::<Seq<char>>::empty());
        }
        ToolDefinition {
            name: owned("sys_info"),
            description: Some(owned("Fetch high-performance system metrics (CPU load, memory usage, host details).")),
            input_schema: schema,
        }
    }
}


/// What the host reports about itself. The percentages are already printed
/// with two decimals.
#[derive(Debug, Clone)]
pub struct HostMetrics {
    pub hostname: Option<String>,
    pub os_name: Option<String>,
    pub os_version: Option<String>,
    pub kernel_version: Option<String>,
    pub cpu_cores: usize,
    pub cpu_usage: String,
    pub total_memory: u64,
    pub used_memory: u64,
    pub memory_usage: String,
}

/// A name, or `Unknown`.
pub open spec fn or_unknown(s: Option<String>) -> Seq<char> {
    match s {
        Some(x) => x@,
        None => "Unknown"@,
    }
}

fn or_unknown_exec(s: &Option<String>) -> (r: String)
    ensures
        r@ == or_unknown(*s),
{
    match s {
        Some(x) => x.clone(),
        None => owned("Unknown"),
    }
}

impl HostMetrics {
    /// The report: host name, `<os> v<version>`, kernel, then CPU cores and
    /// load, then total and used memory and its load, each load followed by
    /// `%`.
    pub open spec fn report_json(self) -> JsonModel {
        JsonModel::Object(seq![
            ("hostname"@, JsonModel::String(or_unknown(self.hostname))),
            ("os"@, JsonModel::String(or_unknown(self.os_name) + " v"@ + or_unknown(self.os_version))),
            ("kernel"@, JsonModel::String(or_unknown(self.kernel_version))),
            ("cpu"@, JsonModel::Object(seq![
                ("cores"@, JsonModel::Number(JsonNumber::PosInt(self.cpu_cores as u64))),
                ("usage_percent"@, JsonModel::String(self.cpu_usage@ + "%"@)),
            ])),
            ("memory"@, JsonModel::Object(seq![
                ("total_bytes"@, JsonModel::Number(JsonNumber::PosInt(self.total_memory))),
                ("used_bytes"@, JsonModel::Number(JsonNumber::PosInt(self.used_memory))),
                ("usage_percent"@, JsonModel::String(self.memory_usage@ + "%"@)),
            ])),
        ])
    }

    pub fn report(&self) -> (r: JsonValue)
        ensures
            r@ == self.report_json(),
    {
        let host = or_unknown_exec(&self.hostname);
        let os_name = or_unknown_exec(&self.os_name);
        let os_version = or_unknown_exec(&self.os_version);
        let os = concat3(os_name.as_str(), " v", os_version.as_str());
        let kernel = or_unknown_exec(&self.kernel_version);
        let ces = vec![
            member("cores", JsonValue::Number(JsonNumber::PosInt(self.cpu_cores as u64))),
            member("usage_percent", JsonValue::String(concat(self.cpu_usage.as_str(), "%"))),
        ];
        let cpu = object(ces);
        let mes = vec![
            member("total_bytes", JsonValue::Number(JsonNumber::PosInt(self.total_memory))),
            member("used_bytes", JsonValue::Number(JsonNumber::PosInt(self.used_memory))),
            member("usage_percent", JsonValue::String(concat(self.memory_usage.as_str(), "%"))),
        ];
        let memory = object(mes);
        let es = vec![
            member("hostname", JsonValue::String(host)),
            member("os", JsonValue::String(os)),
            member("kernel", JsonValue::String(kernel)),
            member("cpu", cpu),
            member("memory", memory),
        ];
        let r = object(es);
        proof {
            let m = self.report_json()->Object_0;
            assert(members_model(ces@) =~= m[3].1->Object_0);
            assert(members_model(mes@) =~= m[4].1->Object_0);
            assert(members_model(es@) =~= m);
        }
        r
    }
}

impl SysInfoTool {
    /// The result of a call: the report, printed as text.
    pub fn report_result(text: String) -> (r: crate::protocol::ToolCallResult)
        ensures
            r.is_text(text@, false),
    {
        crate::protocol::ToolCallResult::text(text, false)
    }
}

} // verus!
