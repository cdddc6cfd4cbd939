//! JSON-RPC 2.0 messages and the Model Context Protocol payloads, with
//! their JSON encodings and the decoding of request parameters.
use vstd::prelude::*;
use crate::json::{JsonModel, JsonNumber, JsonValue, array, copy_opt, copy_value, items_model, member, members_model, object, opt_model, string_or_null, string_or_null_value};
use crate::text::{owned, concat, concat3};
pub use crate::decode::{DecodeError, DecodeErrorModel};
use crate::decode::{
    FieldKind, decode_struct, decode_struct_value, fields_model, opt_text_of, take_opt_text, take_opt_value,
    take_text, take_value, text_of, value_of,
};

verus! {

// ---------------------------------------------------------------------------
// JSON-RPC envelope
// ---------------------------------------------------------------------------

/// Request ID in JSON-RPC 2.0. Can be either a number or a string.
#[derive(Debug, PartialEq, Eq, Hash)]
pub enum RequestId {
    Number(i64),
    String(String),
}

pub ghost enum IdModel {
    Number(i64),
    String(Seq<char>),
}

impl View for RequestId {
    type V = IdModel;

    open spec fn view(&self) -> IdModel {
        match self {
            RequestId::Number(n) => IdModel::Number(*n),
            RequestId::String(s) => IdModel::String(s@),
        }
    }
}

impl Clone for RequestId {
    fn clone(&self) -> (r: Self)
        ensures
            r@ == self@,
    {
        match self {
            RequestId::Number(n) => RequestId::Number(*n),
            RequestId::String(s) => RequestId::String(s.clone()),
        }
    }
}

pub open spec fn id_model(id: Option<RequestId>) -> Option<IdModel> {
    match id {
        Some(i) => Some(i@),
        None => None,
    }
}

pub fn copy_id(id: &Option<RequestId>) -> (r: Option<RequestId>)
    ensures
        id_model(r) == id_model(*id),
{
    match id {
        Some(i) => Some(i.clone()),
        None => None,
    }
}

/// A standard JSON-RPC 2.0 Request.
#[derive(Debug)]
pub struct JsonRpcRequest {
    pub jsonrpc: String,
    pub id: Option<RequestId>,
    pub method: String,
    pub params: Option<JsonValue>,
}

pub ghost struct RequestModel {
    pub jsonrpc: Seq<char>,
    pub id: Option<IdModel>,
    pub method: Seq<char>,
    pub params: Option<JsonModel>,
}

impl View for JsonRpcRequest {
    type V = RequestModel;

    open spec fn view(&self) -> RequestModel {
        RequestModel {
            jsonrpc: self.jsonrpc@,
            id: id_model(self.id),
            method: self.method@,
            params: opt_model(self.params),
        }
    }
}

impl Clone for JsonRpcRequest {
    fn clone(&self) -> (r: Self)
        ensures
            r@ == self@,
    {
        JsonRpcRequest {
            jsonrpc: self.jsonrpc.clone(),
            id: copy_id(&self.id),
            method: self.method.clone(),
            params: copy_opt(&self.params),
        }
    }
}

/// A standard JSON-RPC 2.0 Error.
#[derive(Debug)]
pub struct JsonRpcError {
    pub code: i32,
    pub message: String,
    pub data: Option<JsonValue>,
}

pub ghost struct ErrorModel {
    pub code: i32,
    pub message: Seq<char>,
    pub data: Option<JsonModel>,
}

impl View for JsonRpcError {
    type V = ErrorModel;

    open spec fn view(&self) -> ErrorModel {
        ErrorModel { code: self.code, message: self.message@, data: opt_model(self.data) }
    }
}

impl Clone for JsonRpcError {
    fn clone(&self) -> (r: Self)
        ensures
            r@ == self@,
    {
        JsonRpcError { code: self.code, message: self.message.clone(), data: copy_opt(&self.data) }
    }
}

/// A standard JSON-RPC 2.0 Response.
#[derive(Debug)]
pub struct JsonRpcResponse {
    pub jsonrpc: String,
    pub id: Option<RequestId>,
    pub result: Option<JsonValue>,
    pub error: Option<JsonRpcError>,
}

pub ghost struct ResponseModel {
    pub jsonrpc: Seq<char>,
    pub id: Option<IdModel>,
    pub result: Option<JsonModel>,
    pub error: Option<ErrorModel>,
}

impl View for JsonRpcResponse {
    type V = ResponseModel;

    open spec fn view(&self) -> ResponseModel {
        ResponseModel {
            jsonrpc: self.jsonrpc@,
            id: id_model(self.id),
            result: opt_model(self.result),
            error: match self.error {
                Some(e) => Some(e@),
                None => None,
            },
        }
    }
}

impl Clone for JsonRpcResponse {
    fn clone(&self) -> (r: Self)
        ensures
            r@ == self@,
    {
        JsonRpcResponse {
            jsonrpc: self.jsonrpc.clone(),
            id: copy_id(&self.id),
            result: copy_opt(&self.result),
            error: match &self.error {
                Some(e) => Some(e.clone()),
                None => None,
            },
        }
    }
}

// JSON-RPC standard error codes
pub const PARSE_ERROR: i32 = -32700;
pub const INVALID_REQUEST: i32 = -32600;
pub const METHOD_NOT_FOUND: i32 = -32601;
pub const INVALID_PARAMS: i32 = -32602;
pub const INTERNAL_ERROR: i32 = -32603;

// MCP custom error codes
pub const TOOL_INVOCATION_FAILED: i32 = -32603;

/// A successful response carrying `result`.
pub open spec fn success_model(id: Option<IdModel>, result: JsonModel) -> ResponseModel {
    ResponseModel { jsonrpc: "2.0"@, id, result: Some(result), error: None }
}

/// An error response.
pub open spec fn error_model(
    id: Option<IdModel>,
    code: i32,
    message: Seq<char>,
    data: Option<JsonModel>,
) -> ResponseModel {
    ResponseModel {
        jsonrpc: "2.0"@,
        id,
        result: None,
        error: Some(ErrorModel { code, message, data }),
    }
}

impl JsonRpcResponse {
    pub fn success(id: Option<RequestId>, result: JsonValue) -> (r: Self)
        ensures
            r@ == success_model(id_model(id), result@),
            r.id == id,
    {
        JsonRpcResponse { jsonrpc: owned("2.0"), id, result: Some(result), error: None }
    }

    pub fn error(id: Option<RequestId>, code: i32, message: String, data: Option<JsonValue>) -> (r: Self)
        ensures
            r@ == error_model(id_model(id), code, message@, opt_model(data)),
            r.id == id,
    {
        JsonRpcResponse {
            jsonrpc: owned("2.0"),
            id,
            result: None,
            error: Some(JsonRpcError { code, message, data }),
        }
    }
}

// ---------------------------------------------------------------------------
// Decoding of structured parameters
// ---------------------------------------------------------------------------

pub open spec fn tool_definition_fields() -> Seq<(Seq<char>, FieldKind)> {
    seq![("name"@, FieldKind::Text), ("description"@, FieldKind::OptionalText), ("inputSchema"@, FieldKind::Value)]
}

pub open spec fn name_and_arguments_fields() -> Seq<(Seq<char>, FieldKind)> {
    seq![("name"@, FieldKind::Text), ("arguments"@, FieldKind::OptionalValue)]
}

pub open spec fn opt_string_model(s: Option<String>) -> Option<Seq<char>> {
    match s {
        Some(x) => Some(x@),
        None => None,
    }
}


// ---------------------------------------------------------------------------
// Tools
// ---------------------------------------------------------------------------

/// Schema representing a tool's capability list response.
#[derive(Debug)]
pub struct ToolDefinition {
    pub name: String,
    pub description: Option<String>,
    pub input_schema: JsonValue,
}

impl ToolDefinition {
    /// `{"name", "description" (or null), "inputSchema"}`
    pub open spec fn json(self) -> JsonModel {
        tool_view_json(tool_definition_view(self))
    }

    pub fn to_json(&self) -> (r: JsonValue)
        ensures
            r@ == self.json(),
    {
        let es = vec![
            member("name", JsonValue::String(self.name.clone())),
            member("description", string_or_null_value(&self.description)),
            member("inputSchema", copy_value(&self.input_schema)),
        ];
        let r = object(es);
        proof {
            assert(members_model(es@) =~= self.json()->Object_0);
        }
        r
    }

    /// `name` is a required string, `description` an optional one, and
    /// `inputSchema` any value.
    pub open spec fn decode_spec(m: JsonModel) -> Result<(Seq<char>, Option<Seq<char>>, JsonModel), DecodeErrorModel> {
        match decode_struct("ToolDefinition"@, tool_definition_fields(), m) {
            Err(e) => Err(e),
            Ok(vals) => Ok((text_of(vals[0]), opt_text_of(vals[1]), value_of(vals[2]))),
        }
    }

    pub fn from_json(v: &JsonValue) -> (r: Result<ToolDefinition, DecodeError>)
        ensures
            match r {
                Ok(t) => Self::decode_spec(v@) == Ok::<_, DecodeErrorModel>((t.name@, opt_string_model(t.description), t.input_schema@)),
                Err(e) => Self::decode_spec(v@) == Err::<(Seq<char>, Option<Seq<char>>, JsonModel), _>(e@),
            },
    {
        let fields = vec![("name", FieldKind::Text), ("description", FieldKind::OptionalText), ("inputSchema", FieldKind::Value)];
        proof {
            assert(fields_model(fields@) =~= tool_definition_fields());
        }
        match decode_struct_value(v, "ToolDefinition", &fields) {
            Err(e) => Err(e),
            Ok(vals) => {
                let name = take_text(&vals[0]);
                let description = take_opt_text(&vals[1]);
                let input_schema = take_value(&vals[2]);
                Ok(ToolDefinition { name, description, input_schema })
            },
        }
    }
}

/// The JSON of a tool definition given as (name, description, schema).
pub open spec fn tool_view_json(t: (Seq<char>, Option<Seq<char>>, JsonModel)) -> JsonModel {
    JsonModel::Object(
        seq![
            ("name"@, JsonModel::String(t.0)),
            ("description"@, string_or_null(t.1)),
            ("inputSchema"@, t.2),
        ],
    )
}

/// The JSON of a tool definition holds the definition: its name, its
/// description (`null` only when it has none), and its input schema.
pub proof fn lemma_tool_json_holds_definition(t: (Seq<char>, Option<Seq<char>>, JsonModel))
    ensures
        tool_view_json(t).get("name"@) == Some(JsonModel::String(t.0)),
        tool_view_json(t).get("description"@) == Some(
            match t.1 {
                Some(d) => JsonModel::String(d),
                None => JsonModel::Null,
            },
        ),
        tool_view_json(t).get("inputSchema"@) == Some(t.2),
{
    reveal_strlit("name");
    reveal_strlit("description");
    reveal_strlit("inputSchema");
    assert("name"@[0] != "description"@[0] && "name"@[0] != "inputSchema"@[0]);
    assert("description"@[0] != "inputSchema"@[0]);
    let es = tool_view_json(t)->Object_0;
    assert(es.drop_first() =~= seq![es[1], es[2]]);
    assert(es.drop_first().drop_first() =~= seq![es[2]]);
    reveal_with_fuel(crate::json::lookup, 4);
}

pub open spec fn tool_definition_view(t: ToolDefinition) -> (Seq<char>, Option<Seq<char>>, JsonModel) {
    (t.name@, opt_string_model(t.description), t.input_schema@)
}

impl Clone for ToolDefinition {
    fn clone(&self) -> (r: Self)
        ensures
            tool_definition_view(r) == tool_definition_view(*self),
    {
        ToolDefinition {
            name: self.name.clone(),
            description: match &self.description {
                Some(d) => Some(d.clone()),
                None => None,
            },
            input_schema: copy_value(&self.input_schema),
        }
    }
}

/// The JSON of each tool definition, in order.
pub open spec fn tools_json(tools: Seq<ToolDefinition>) -> Seq<JsonModel> {
    Seq::new(tools.len(), |i: int| tools[i].json())
}

fn tools_to_json(tools: &Vec<ToolDefinition>) -> (r: JsonValue)
    ensures
        r@ == JsonModel::Array(tools_json(tools@)),
{
    let mut out: Vec<JsonValue> = Vec::new();
    let mut i: usize = 0;
    while i < tools.len()
        invariant
            i <= tools@.len(),
            out@.len() == i,
            forall|k: int| 0 <= k < i ==> (#[trigger] out@[k])@ == tools@[k].json(),
        decreases tools@.len() - i,
    {
        out.push(tools[i].to_json());
        i = i + 1;
    }
    let r = array(out);
    proof {
        assert(items_model(out@) =~= tools_json(tools@));
    }
    r
}

/// Tools list result payload with caching fields.
#[derive(Debug)]
pub struct ToolsListResult {
    pub tools: Vec<ToolDefinition>,
    pub ttl_ms: Option<u64>,
    pub cache_scope: Option<String>,
}

impl ToolsListResult {
    /// `{"tools", "ttlMs"?, "cacheScope"?}`: absent options are left out.
    pub open spec fn json(self) -> JsonModel {
        JsonModel::Object(
            seq![("tools"@, JsonModel::Array(tools_json(self.tools@)))]
            + match self.ttl_ms {
                Some(t) => seq![("ttlMs"@, JsonModel::Number(JsonNumber::PosInt(t)))],
                None => seq![],
            }
            + match self.cache_scope {
                Some(c) => seq![("cacheScope"@, JsonModel::String(c@))],
                None => seq![],
            },
        )
    }

    pub fn to_json(&self) -> (r: JsonValue)
        ensures
            r@ == self.json(),
    {
        let mut es = vec![member("tools", tools_to_json(&self.tools))];
        let ghost first = es@;
        if let Some(t) = self.ttl_ms {
            es.push(member("ttlMs", JsonValue::Number(JsonNumber::PosInt(t))));
        }
        let ghost second = es@;
        if let Some(c) = &self.cache_scope {
            es.push(member("cacheScope", JsonValue::String(c.clone())));
        }
        let r = object(es);
        proof {
            assert(members_model(es@) =~= self.json()->Object_0);
        }
        r
    }
}

/// Call tool parameters.
#[derive(Debug)]
pub struct CallToolParams {
    pub name: String,
    pub arguments: Option<JsonValue>,
}

impl CallToolParams {
    /// `name` is a required string; `arguments` is any value, absent or
    /// `null` meaning none.
    pub open spec fn decode_spec(m: JsonModel) -> Result<(Seq<char>, Option<JsonModel>), DecodeErrorModel> {
        match decode_struct("CallToolParams"@, name_and_arguments_fields(), m) {
            Err(e) => Err(e),
            Ok(vals) => Ok((text_of(vals[0]), vals[1])),
        }
    }

    pub fn from_json(v: &JsonValue) -> (r: Result<CallToolParams, DecodeError>)
        ensures
            match r {
                Ok(p) => Self::decode_spec(v@) == Ok::<_, DecodeErrorModel>((p.name@, opt_model(p.arguments))),
                Err(e) => Self::decode_spec(v@) == Err::<(Seq<char>, Option<JsonModel>), _>(e@),
            },
    {
        let fields = vec![("name", FieldKind::Text), ("arguments", FieldKind::OptionalValue)];
        proof {
            assert(fields_model(fields@) =~= name_and_arguments_fields());
        }
        match decode_struct_value(v, "CallToolParams", &fields) {
            Err(e) => Err(e),
            Ok(vals) => {
                let name = take_text(&vals[0]);
                let arguments = take_opt_value(&vals[1]);
                Ok(CallToolParams { name, arguments })
            },
        }
    }
}

/// Tool Call Result structures.
#[derive(Debug)]
pub struct ToolCallTextContent {
    pub text: String,
}

#[derive(Debug)]
pub enum ToolCallContent {
    Text(ToolCallTextContent),
}

impl ToolCallContent {
    /// `{"type": "text", "text"}`
    pub open spec fn json(self) -> JsonModel {
        match self {
            ToolCallContent::Text(t) => JsonModel::Object(
                seq![("type"@, JsonModel::String("text"@)), ("text"@, JsonModel::String(t.text@))],
            ),
        }
    }

    pub fn to_json(&self) -> (r: JsonValue)
        ensures
            r@ == self.json(),
    {
        match self {
            ToolCallContent::Text(t) => {
                let es = vec![member("type", JsonValue::string("text")), member("text", JsonValue::String(t.text.clone()))];
                let r = object(es);
                proof {
                    assert(members_model(es@) =~= self.json()->Object_0);
                }
                r
            },
        }
    }

    /// The text of a text item.
    pub open spec fn text_of(self) -> Seq<char> {
        match self {
            ToolCallContent::Text(t) => t.text@,
        }
    }
}

#[derive(Debug)]
pub struct ToolCallResult {
    pub content: Vec<ToolCallContent>,
    pub is_error: bool,
}

impl ToolCallResult {
    /// `{"content": [...], "isError"}`
    pub open spec fn json(self) -> JsonModel {
        JsonModel::Object(
            seq![
                ("content"@, JsonModel::Array(Seq::new(self.content@.len(), |i: int| self.content@[i].json()))),
                ("isError"@, JsonModel::Bool(self.is_error)),
            ],
        )
    }

    pub fn to_json(&self) -> (r: JsonValue)
        ensures
            r@ == self.json(),
    {
        let mut out: Vec<JsonValue> = Vec::new();
        let mut i: usize = 0;
        while i < self.content.len()
            invariant
                i <= self.content@.len(),
                out@.len() == i,
                forall|k: int| 0 <= k < i ==> (#[trigger] out@[k])@ == self.content@[k].json(),
            decreases self.content@.len() - i,
        {
            out.push(self.content[i].to_json());
            i = i + 1;
        }
        let content = array(out);
        proof {
            assert(items_model(out@) =~= Seq::new(self.content@.len(), |i: int| self.content@[i].json()));
        }
        let es = vec![member("content", content), member("isError", JsonValue::Bool(self.is_error))];
        let r = object(es);
        proof {
            assert(members_model(es@) =~= self.json()->Object_0);
        }
        r
    }

    /// A result of one text item.
    pub open spec fn is_text(self, text: Seq<char>, is_error: bool) -> bool {
        &&& self.content@.len() == 1
        &&& self.content@[0].text_of() == text
        &&& self.is_error == is_error
    }

    /// A result of one text item.
    pub fn text(text: String, is_error: bool) -> (r: ToolCallResult)
        ensures
            r.is_text(text@, is_error),
    {
        ToolCallResult {
            content: vec![ToolCallContent::Text(ToolCallTextContent { text })],
            is_error,
        }
    }
}


// ---------------------------------------------------------------------------
// Request metadata
// ---------------------------------------------------------------------------

/// Metadata passed inside MCP 2026-07-28 request parameters under `_meta`.
#[derive(Debug, Clone)]
pub struct ClientInfo {
    pub name: String,
    pub version: String,
}

#[derive(Debug, Clone)]
pub struct RequestMeta {
    pub client_info: Option<ClientInfo>,
    pub traceparent: Option<String>,
    pub tracestate: Option<String>,
}

pub ghost struct MetaModel {
    pub client_info: Option<(Seq<char>, Seq<char>)>,
    pub traceparent: Option<Seq<char>>,
    pub tracestate: Option<Seq<char>>,
}

impl View for RequestMeta {
    type V = MetaModel;

    open spec fn view(&self) -> MetaModel {
        MetaModel {
            client_info: match self.client_info {
                Some(c) => Some((c.name@, c.version@)),
                None => None,
            },
            traceparent: opt_string_model(self.traceparent),
            tracestate: opt_string_model(self.tracestate),
        }
    }
}

/// A client's name and version, both required strings; `None` when the
/// value does not decode.
pub open spec fn client_info_spec(m: JsonModel) -> Option<(Seq<char>, Seq<char>)> {
    match decode_struct("ClientInfo"@, seq![("name"@, FieldKind::Text), ("version"@, FieldKind::Text)], m) {
        Ok(vals) => Some((text_of(vals[0]), text_of(vals[1]))),
        Err(_) => None,
    }
}

pub open spec fn meta_fields() -> Seq<(Seq<char>, FieldKind)> {
    seq![
        ("io.modelcontextprotocol/clientInfo"@, FieldKind::OptionalValue),
        ("traceparent"@, FieldKind::OptionalText),
        ("tracestate"@, FieldKind::OptionalText),
    ]
}

/// The metadata object: `io.modelcontextprotocol/clientInfo` (a client
/// info), `traceparent` and `tracestate` (strings), each optional; `None`
/// when anything present does not decode.
pub open spec fn meta_spec(m: JsonModel) -> Option<MetaModel> {
    match decode_struct("RequestMeta"@, meta_fields(), m) {
        Err(_) => None,
        Ok(vals) => {
            let tp = opt_text_of(vals[1]);
            let ts = opt_text_of(vals[2]);
            match vals[0] {
                None => Some(MetaModel { client_info: None, traceparent: tp, tracestate: ts }),
                Some(c) => match client_info_spec(c) {
                    Some(x) => Some(MetaModel { client_info: Some(x), traceparent: tp, tracestate: ts }),
                    None => None,
                },
            }
        },
    }
}

fn decode_client_info(v: &JsonValue) -> (r: Option<ClientInfo>)
    ensures
        match r {
            Some(c) => client_info_spec(v@) == Some((c.name@, c.version@)),
            None => client_info_spec(v@) is None,
        },
{
    let fields = vec![("name", FieldKind::Text), ("version", FieldKind::Text)];
    proof {
        assert(fields_model(fields@) =~= seq![("name"@, FieldKind::Text), ("version"@, FieldKind::Text)]);
    }
    match decode_struct_value(v, "ClientInfo", &fields) {
        Err(_) => None,
        Ok(vals) => Some(ClientInfo { name: take_text(&vals[0]), version: take_text(&vals[1]) }),
    }
}

impl RequestMeta {
    pub fn from_json(v: &JsonValue) -> (r: Option<RequestMeta>)
        ensures
            match r {
                Some(m) => meta_spec(v@) == Some(m@),
                None => meta_spec(v@) is None,
            },
    {
        let fields = vec![
            ("io.modelcontextprotocol/clientInfo", FieldKind::OptionalValue),
            ("traceparent", FieldKind::OptionalText),
            ("tracestate", FieldKind::OptionalText),
        ];
        proof {
            assert(fields_model(fields@) =~= meta_fields());
        }
        let vals = match decode_struct_value(v, "RequestMeta", &fields) {
            Err(_) => return None,
            Ok(vals) => vals,
        };
        let traceparent = take_opt_text(&vals[1]);
        let tracestate = take_opt_text(&vals[2]);
        let client_info = match &vals[0] {
            None => None,
            Some(c) => match decode_client_info(c) {
                Some(x) => Some(x),
                None => return None,
            },
        };
        Some(RequestMeta { client_info, traceparent, tracestate })
    }
}

impl JsonRpcRequest {
    /// The `_meta` member of the parameters, decoded.
    pub open spec fn meta_spec(self) -> Option<MetaModel> {
        match opt_model(self.params) {
            Some(p) => match p.get("_meta"@) {
                Some(m) => meta_spec(m),
                None => None,
            },
            None => None,
        }
    }

    /// Extracts the `_meta` field from params if present.
    pub fn extract_meta(&self) -> (r: Option<RequestMeta>)
        ensures
            match r {
                Some(m) => self.meta_spec() == Some(m@),
                None => self.meta_spec() is None,
            },
    {
        match &self.params {
            Some(p) => match p.get("_meta") {
                Some(m) => RequestMeta::from_json(m),
                None => None,
            },
            None => None,
        }
    }
}

// ---------------------------------------------------------------------------
// Resources
// ---------------------------------------------------------------------------

/// Resource definition metadata.
#[derive(Debug, Clone)]
pub struct ResourceDefinition {
    pub uri: String,
    pub name: String,
    pub description: Option<String>,
    pub mime_type: Option<String>,
}

impl ResourceDefinition {
    /// `{"uri", "name", "description" (or null), "mimeType"?}`
    pub open spec fn json(self) -> JsonModel {
        JsonModel::Object(
            seq![
                ("uri"@, JsonModel::String(self.uri@)),
                ("name"@, JsonModel::String(self.name@)),
                ("description"@, string_or_null(opt_string_model(self.description))),
            ] + match self.mime_type {
                Some(m) => seq![("mimeType"@, JsonModel::String(m@))],
                None => seq![],
            },
        )
    }

    pub fn to_json(&self) -> (r: JsonValue)
        ensures
            r@ == self.json(),
    {
        let mut es = vec![
            member("uri", JsonValue::String(self.uri.clone())),
            member("name", JsonValue::String(self.name.clone())),
            member("description", string_or_null_value(&self.description)),
        ];
        if let Some(m) = &self.mime_type {
            es.push(member("mimeType", JsonValue::String(m.clone())));
        }
        let r = object(es);
        proof {
            assert(members_model(es@) =~= self.json()->Object_0);
        }
        r
    }
}

/// Resources list result payload with caching fields.
#[derive(Debug, Clone)]
pub struct ResourcesListResult {
    pub resources: Vec<ResourceDefinition>,
    pub ttl_ms: Option<u64>,
    pub cache_scope: Option<String>,
}

impl ResourcesListResult {
    /// `{"resources", "ttlMs"?, "cacheScope"?}`
    pub open spec fn json(self) -> JsonModel {
        JsonModel::Object(
            seq![("resources"@, JsonModel::Array(Seq::new(self.resources@.len(), |i: int| self.resources@[i].json())))]
            + match self.ttl_ms {
                Some(t) => seq![("ttlMs"@, JsonModel::Number(JsonNumber::PosInt(t)))],
                None => seq![],
            }
            + match self.cache_scope {
                Some(c) => seq![("cacheScope"@, JsonModel::String(c@))],
                None => seq![],
            },
        )
    }

    pub fn to_json(&self) -> (r: JsonValue)
        ensures
            r@ == self.json(),
    {
        let mut out: Vec<JsonValue> = Vec::new();
        let mut i: usize = 0;
        while i < self.resources.len()
            invariant
                i <= self.resources@.len(),
                out@.len() == i,
                forall|k: int| 0 <= k < i ==> (#[trigger] out@[k])@ == self.resources@[k].json(),
            decreases self.resources@.len() - i,
        {
            out.push(self.resources[i].to_json());
            i = i + 1;
        }
        let list = array(out);
        proof {
            assert(items_model(out@) =~= Seq::new(self.resources@.len(), |i: int| self.resources@[i].json()));
        }
        let mut es = vec![member("resources", list)];
        if let Some(t) = self.ttl_ms {
            es.push(member("ttlMs", JsonValue::Number(JsonNumber::PosInt(t))));
        }
        if let Some(c) = &self.cache_scope {
            es.push(member("cacheScope", JsonValue::String(c.clone())));
        }
        let r = object(es);
        proof {
            assert(members_model(es@) =~= self.json()->Object_0);
        }
        r
    }
}

/// Resource contents result payload.
#[derive(Debug, Clone)]
pub struct ResourceContent {
    pub uri: String,
    pub mime_type: Option<String>,
    pub text: Option<String>,
    pub blob: Option<String>,
}

impl ResourceContent {
    /// `{"uri", "mimeType"?, "text" (or null), "blob" (or null)}`
    pub open spec fn json(self) -> JsonModel {
        JsonModel::Object(
            seq![("uri"@, JsonModel::String(self.uri@))]
            + match self.mime_type {
                Some(m) => seq![("mimeType"@, JsonModel::String(m@))],
                None => seq![],
            }
            + seq![
                ("text"@, string_or_null(opt_string_model(self.text))),
                ("blob"@, string_or_null(opt_string_model(self.blob))),
            ],
        )
    }

    pub fn to_json(&self) -> (r: JsonValue)
        ensures
            r@ == self.json(),
    {
        let mut es = vec![member("uri", JsonValue::String(self.uri.clone()))];
        if let Some(m) = &self.mime_type {
            es.push(member("mimeType", JsonValue::String(m.clone())));
        }
        es.push(member("text", string_or_null_value(&self.text)));
        es.push(member("blob", string_or_null_value(&self.blob)));
        let r = object(es);
        proof {
            assert(members_model(es@) =~= self.json()->Object_0);
        }
        r
    }
}

#[derive(Debug, Clone)]
pub struct ResourceReadResult {
    pub contents: Vec<ResourceContent>,
}

impl ResourceReadResult {
    /// `{"contents": [...]}`
    pub open spec fn json(self) -> JsonModel {
        JsonModel::Object(
            seq![("contents"@, JsonModel::Array(Seq::new(self.contents@.len(), |i: int| self.contents@[i].json())))],
        )
    }

    pub fn to_json(&self) -> (r: JsonValue)
        ensures
            r@ == self.json(),
    {
        let mut out: Vec<JsonValue> = Vec::new();
        let mut i: usize = 0;
        while i < self.contents.len()
            invariant
                i <= self.contents@.len(),
                out@.len() == i,
                forall|k: int| 0 <= k < i ==> (#[trigger] out@[k])@ == self.contents@[k].json(),
            decreases self.contents@.len() - i,
        {
            out.push(self.contents[i].to_json());
            i = i + 1;
        }
        let list = array(out);
        proof {
            assert(items_model(out@) =~= Seq::new(self.contents@.len(), |i: int| self.contents@[i].json()));
        }
        let es = vec![member("contents", list)];
        let r = object(es);
        proof {
            assert(members_model(es@) =~= self.json()->Object_0);
        }
        r
    }
}

/// Read resource parameters.
#[derive(Debug, Clone)]
pub struct ReadResourceParams {
    pub uri: String,
}

impl ReadResourceParams {
    /// `uri` is a required string.
    pub open spec fn decode_spec(m: JsonModel) -> Result<Seq<char>, DecodeErrorModel> {
        match decode_struct("ReadResourceParams"@, seq![("uri"@, FieldKind::Text)], m) {
            Err(e) => Err(e),
            Ok(vals) => Ok(text_of(vals[0])),
        }
    }

    pub fn from_json(v: &JsonValue) -> (r: Result<ReadResourceParams, DecodeError>)
        ensures
            match r {
                Ok(p) => Self::decode_spec(v@) == Ok::<_, DecodeErrorModel>(p.uri@),
                Err(e) => Self::decode_spec(v@) == Err::<Seq<char>, _>(e@),
            },
    {
        let fields = vec![("uri", FieldKind::Text)];
        proof {
            assert(fields_model(fields@) =~= seq![("uri"@, FieldKind::Text)]);
        }
        match decode_struct_value(v, "ReadResourceParams", &fields) {
            Err(e) => Err(e),
            Ok(vals) => Ok(ReadResourceParams { uri: take_text(&vals[0]) }),
        }
    }
}

// ---------------------------------------------------------------------------
// Prompts
// ---------------------------------------------------------------------------

/// Prompt definition metadata.
#[derive(Debug, Clone)]
pub struct PromptArgument {
    pub name: String,
    pub description: Option<String>,
    pub required: Option<bool>,
}

impl PromptArgument {
    /// `{"name", "description" (or null), "required" (or null)}`
    pub open spec fn json(self) -> JsonModel {
        JsonModel::Object(
            seq![
                ("name"@, JsonModel::String(self.name@)),
                ("description"@, string_or_null(opt_string_model(self.description))),
                ("required"@, match self.required {
                    Some(b) => JsonModel::Bool(b),
                    None => JsonModel::Null,
                }),
            ],
        )
    }

    pub fn to_json(&self) -> (r: JsonValue)
        ensures
            r@ == self.json(),
    {
        let required = match self.required {
            Some(b) => JsonValue::Bool(b),
            None => JsonValue::Null,
        };
        let es = vec![
            member("name", JsonValue::String(self.name.clone())),
            member("description", string_or_null_value(&self.description)),
            member("required", required),
        ];
        let r = object(es);
        proof {
            assert(members_model(es@) =~= self.json()->Object_0);
        }
        r
    }
}

pub open spec fn arguments_json(args: Seq<PromptArgument>) -> Seq<JsonModel> {
    Seq::new(args.len(), |i: int| args[i].json())
}

#[derive(Debug, Clone)]
pub struct PromptDefinition {
    pub name: String,
    pub description: Option<String>,
    pub arguments: Option<Vec<PromptArgument>>,
}

impl PromptDefinition {
    /// `{"name", "description" (or null), "arguments"?}`
    pub open spec fn json(self) -> JsonModel {
        JsonModel::Object(
            seq![
                ("name"@, JsonModel::String(self.name@)),
                ("description"@, string_or_null(opt_string_model(self.description))),
            ] + match self.arguments {
                Some(a) => seq![("arguments"@, JsonModel::Array(arguments_json(a@)))],
                None => seq![],
            },
        )
    }

    pub fn to_json(&self) -> (r: JsonValue)
        ensures
            r@ == self.json(),
    {
        let mut es = vec![
            member("name", JsonValue::String(self.name.clone())),
            member("description", string_or_null_value(&self.description)),
        ];
        if let Some(args) = &self.arguments {
            let mut out: Vec<JsonValue> = Vec::new();
            let mut i: usize = 0;
            while i < args.len()
                invariant
                    i <= args@.len(),
                    out@.len() == i,
                    forall|k: int| 0 <= k < i ==> (#[trigger] out@[k])@ == args@[k].json(),
                decreases args@.len() - i,
            {
                out.push(args[i].to_json());
                i = i + 1;
            }
            let list = array(out);
            proof {
                assert(items_model(out@) =~= arguments_json(args@));
            }
            es.push(member("arguments", list));
        }
        let r = object(es);
        proof {
            assert(members_model(es@) =~= self.json()->Object_0);
        }
        r
    }
}

/// Prompts list result payload.
#[derive(Debug, Clone)]
pub struct PromptsListResult {
    pub prompts: Vec<PromptDefinition>,
}

impl PromptsListResult {
    /// `{"prompts": [...]}`
    pub open spec fn json(self) -> JsonModel {
        JsonModel::Object(
            seq![("prompts"@, JsonModel::Array(Seq::new(self.prompts@.len(), |i: int| self.prompts@[i].json())))],
        )
    }

    pub fn to_json(&self) -> (r: JsonValue)
        ensures
            r@ == self.json(),
    {
        let mut out: Vec<JsonValue> = Vec::new();
        let mut i: usize = 0;
        while i < self.prompts.len()
            invariant
                i <= self.prompts@.len(),
                out@.len() == i,
                forall|k: int| 0 <= k < i ==> (#[trigger] out@[k])@ == self.prompts@[k].json(),
            decreases self.prompts@.len() - i,
        {
            out.push(self.prompts[i].to_json());
            i = i + 1;
        }
        let list = array(out);
        proof {
            assert(items_model(out@) =~= Seq::new(self.prompts@.len(), |i: int| self.prompts@[i].json()));
        }
        let es = vec![member("prompts", list)];
        let r = object(es);
        proof {
            assert(members_model(es@) =~= self.json()->Object_0);
        }
        r
    }
}

/// Prompt message content structure.
#[derive(Debug, Clone)]
pub struct PromptMessageText {
    pub text: String,
}

#[derive(Debug, Clone)]
pub enum PromptContent {
    Text(PromptMessageText),
}

#[derive(Debug, Clone)]
pub struct PromptMessage {
    pub role: String,
    pub content: PromptContent,
}

impl PromptMessage {
    /// `{"role", "content": {"type": "text", "text"}}`
    pub open spec fn json(self) -> JsonModel {
        JsonModel::Object(
            seq![
                ("role"@, JsonModel::String(self.role@)),
                ("content"@, match self.content {
                    PromptContent::Text(t) => JsonModel::Object(
                        seq![("type"@, JsonModel::String("text"@)), ("text"@, JsonModel::String(t.text@))],
                    ),
                }),
            ],
        )
    }

    pub fn to_json(&self) -> (r: JsonValue)
        ensures
            r@ == self.json(),
    {
        let content = match &self.content {
            PromptContent::Text(t) => {
                let ces = vec![member("type", JsonValue::string("text")), member("text", JsonValue::String(t.text.clone()))];
                let c = object(ces);
                proof {
                    assert(members_model(ces@) =~= seq![("type"@, JsonModel::String("text"@)), ("text"@, JsonModel::String(t.text@))]);
                }
                c
            },
        };
        let es = vec![member("role", JsonValue::String(self.role.clone())), member("content", content)];
        let r = object(es);
        proof {
            assert(members_model(es@) =~= self.json()->Object_0);
        }
        r
    }
}

#[derive(Debug, Clone)]
pub struct PromptGetResult {
    pub description: Option<String>,
    pub messages: Vec<PromptMessage>,
}

impl PromptGetResult {
    /// `{"description" (or null), "messages": [...]}`
    pub open spec fn json(self) -> JsonModel {
        JsonModel::Object(
            seq![
                ("description"@, string_or_null(opt_string_model(self.description))),
                ("messages"@, JsonModel::Array(Seq::new(self.messages@.len(), |i: int| self.messages@[i].json()))),
            ],
        )
    }

    pub fn to_json(&self) -> (r: JsonValue)
        ensures
            r@ == self.json(),
    {
        let mut out: Vec<JsonValue> = Vec::new();
        let mut i: usize = 0;
        while i < self.messages.len()
            invariant
                i <= self.messages@.len(),
                out@.len() == i,
                forall|k: int| 0 <= k < i ==> (#[trigger] out@[k])@ == self.messages@[k].json(),
            decreases self.messages@.len() - i,
        {
            out.push(self.messages[i].to_json());
            i = i + 1;
        }
        let list = array(out);
        proof {
            assert(items_model(out@) =~= Seq::new(self.messages@.len(), |i: int| self.messages@[i].json()));
        }
        let es = vec![member("description", string_or_null_value(&self.description)), member("messages", list)];
        let r = object(es);
        proof {
            assert(members_model(es@) =~= self.json()->Object_0);
        }
        r
    }
}

/// Get prompt parameters.
#[derive(Debug, Clone)]
pub struct GetPromptParams {
    pub name: String,
    pub arguments: Option<JsonValue>,
}

impl GetPromptParams {
    /// `name` is a required string; `arguments` is any value, absent or
    /// `null` meaning none.
    pub open spec fn decode_spec(m: JsonModel) -> Result<(Seq<char>, Option<JsonModel>), DecodeErrorModel> {
        match decode_struct("GetPromptParams"@, name_and_arguments_fields(), m) {
            Err(e) => Err(e),
            Ok(vals) => Ok((text_of(vals[0]), vals[1])),
        }
    }

    pub fn from_json(v: &JsonValue) -> (r: Result<GetPromptParams, DecodeError>)
        ensures
            match r {
                Ok(p) => Self::decode_spec(v@) == Ok::<_, DecodeErrorModel>((p.name@, opt_model(p.arguments))),
                Err(e) => Self::decode_spec(v@) == Err::<(Seq<char>, Option<JsonModel>), _>(e@),
            },
    {
        let fields = vec![("name", FieldKind::Text), ("arguments", FieldKind::OptionalValue)];
        proof {
            assert(fields_model(fields@) =~= name_and_arguments_fields());
        }
        match decode_struct_value(v, "GetPromptParams", &fields) {
            Err(e) => Err(e),
            Ok(vals) => {
                let name = take_text(&vals[0]);
                let arguments = take_opt_value(&vals[1]);
                Ok(GetPromptParams { name, arguments })
            },
        }
    }
}

// ---------------------------------------------------------------------------
// Server discovery
// ---------------------------------------------------------------------------

/// Server Capabilities structure returned by `server/discover`.
#[derive(Debug, Clone)]
pub struct ServerInfo {
    pub name: String,
    pub version: String,
}

#[derive(Debug, Clone)]
pub struct ServerCapabilities {
    pub tools: Option<JsonValue>,
    pub resources: Option<JsonValue>,
    pub prompts: Option<JsonValue>,
}

#[derive(Debug, Clone)]
pub struct ServerDiscoverResult {
    pub protocol_version: String,
    pub capabilities: ServerCapabilities,
    pub server_info: ServerInfo,
}

pub open spec fn optional_member(key: Seq<char>, v: Option<JsonValue>) -> Seq<(Seq<char>, JsonModel)> {
    match v {
        Some(x) => seq![(key, x@)],
        None => seq![],
    }
}

impl ServerCapabilities {
    /// `{"tools"?, "resources"?, "prompts"?}`
    pub open spec fn json(self) -> JsonModel {
        JsonModel::Object(
            optional_member("tools"@, self.tools) + optional_member("resources"@, self.resources)
                + optional_member("prompts"@, self.prompts),
        )
    }

    pub fn to_json(&self) -> (r: JsonValue)
        ensures
            r@ == self.json(),
    {
        let mut es: Vec<(String, JsonValue)> = Vec::new();
        if let Some(t) = &self.tools {
            es.push(member("tools", copy_value(t)));
        }
        if let Some(t) = &self.resources {
            es.push(member("resources", copy_value(t)));
        }
        if let Some(t) = &self.prompts {
            es.push(member("prompts", copy_value(t)));
        }
        let r = object(es);
        proof {
            assert(members_model(es@) =~= self.json()->Object_0);
        }
        r
    }
}

impl ServerDiscoverResult {
    /// `{"protocolVersion", "capabilities", "serverInfo": {"name", "version"}}`
    pub open spec fn json(self) -> JsonModel {
        JsonModel::Object(
            seq![
                ("protocolVersion"@, JsonModel::String(self.protocol_version@)),
                ("capabilities"@, self.capabilities.json()),
                ("serverInfo"@, JsonModel::Object(
                    seq![
                        ("name"@, JsonModel::String(self.server_info.name@)),
                        ("version"@, JsonModel::String(self.server_info.version@)),
                    ],
                )),
            ],
        )
    }

    pub fn to_json(&self) -> (r: JsonValue)
        ensures
            r@ == self.json(),
    {
        let ies = vec![
            member("name", JsonValue::String(self.server_info.name.clone())),
            member("version", JsonValue::String(self.server_info.version.clone())),
        ];
        let info = object(ies);
        proof {
            assert(members_model(ies@) =~= seq![
                ("name"@, JsonModel::String(self.server_info.name@)),
                ("version"@, JsonModel::String(self.server_info.version@)),
            ]);
        }
        let es = vec![
            member("protocolVersion", JsonValue::String(self.protocol_version.clone())),
            member("capabilities", self.capabilities.to_json()),
            member("serverInfo", info),
        ];
        let r = object(es);
        proof {
            assert(members_model(es@) =~= self.json()->Object_0);
        }
        r
    }
}

} // verus!
