//! The stateless request handler of the hub: JSON-RPC validation, method
//! dispatch, and the routing of tool calls to built-in tools or sub-servers.
use vstd::prelude::*;
use vstd::string::StringExecFns;
use crate::hub::{HubManager, ToolView, lemma_builtin_names_never_routed, route_of};
use crate::json::{JsonModel, JsonNumber, JsonValue, array, copy_value, items_model, lemma_with_member_get, member, members_model, object, with_member};
use crate::protocol::{
    CallToolParams, DecodeErrorModel, GetPromptParams, IdModel, JsonRpcRequest, JsonRpcResponse,
    PromptArgument, PromptContent, PromptDefinition, PromptGetResult, PromptMessage, PromptMessageText,
    PromptsListResult, ReadResourceParams, RequestId, RequestModel, ResourceContent, ResourceDefinition,
    ResourceReadResult, ResourcesListResult, ResponseModel, ServerCapabilities, ServerDiscoverResult,
    ServerInfo, ToolCallResult, ToolDefinition, ToolsListResult, INTERNAL_ERROR, INVALID_PARAMS,
    INVALID_REQUEST, METHOD_NOT_FOUND, error_model, id_model, lemma_tool_json_holds_definition, success_model,
    tool_definition_view, tool_view_json,
};
use crate::text::{concat, concat3, owned, str_eq};
use crate::tools::{BuiltinTool, Tool, ToolRegistry, is_builtin_name};

verus! {

/// The version this server reports.
pub open spec fn server_version() -> Seq<char> {
    "0.1.0"@
}

pub fn server_version_str() -> (r: &'static str)
    ensures
        r@ == server_version(),
{
    "0.1.0"
}

// ---------------------------------------------------------------------------
// Results
// ---------------------------------------------------------------------------

/// The protocol version a legacy client asks for in `initialize`, or
/// `2024-11-05`.
pub open spec fn client_version(params: Option<JsonModel>) -> Seq<char> {
    match params {
        Some(p) => match p.get_str("protocolVersion"@) {
            Some(v) => v,
            None => "2024-11-05"@,
        },
        None => "2024-11-05"@,
    }
}

pub open spec fn capabilities_json() -> JsonModel {
    JsonModel::Object(seq![
        ("tools"@, JsonModel::empty_object()),
        ("resources"@, JsonModel::empty_object()),
        ("prompts"@, JsonModel::empty_object()),
    ])
}

/// The result of `initialize`.
pub open spec fn initialize_json(version: Seq<char>) -> JsonModel {
    JsonModel::Object(seq![
        ("protocolVersion"@, JsonModel::String(version)),
        ("capabilities"@, capabilities_json()),
        ("serverInfo"@, JsonModel::Object(seq![
            ("name"@, JsonModel::String("paramcp-hub"@)),
            ("version"@, JsonModel::String(server_version())),
        ])),
    ])
}

/// The result of `server/discover`.
pub open spec fn discover_json() -> JsonModel {
    JsonModel::Object(seq![
        ("protocolVersion"@, JsonModel::String("2026-07-28"@)),
        ("capabilities"@, capabilities_json()),
        ("serverInfo"@, JsonModel::Object(seq![
            ("name"@, JsonModel::String("paramcp"@)),
            ("version"@, JsonModel::String(server_version())),
        ])),
    ])
}

/// The result of `tools/list`: the given tools, cached for five minutes by
/// every client.
pub open spec fn tools_list_json(tools: Seq<ToolView>) -> JsonModel {
    JsonModel::Object(seq![
        ("tools"@, JsonModel::Array(Seq::new(tools.len(), |i: int| tool_view_json(tools[i])))),
        ("ttlMs"@, JsonModel::Number(JsonNumber::PosInt(300000))),
        ("cacheScope"@, JsonModel::String("shared"@)),
    ])
}

/// The one resource: metadata of this server.
pub open spec fn info_uri() -> Seq<char> {
    "paramcp://server/info"@
}

/// The result of `resources/list`.
pub open spec fn resources_list_json() -> JsonModel {
    JsonModel::Object(seq![
        ("resources"@, JsonModel::Array(seq![JsonModel::Object(seq![
            ("uri"@, JsonModel::String(info_uri())),
            ("name"@, JsonModel::String("Server Info"@)),
            ("description"@, JsonModel::String("Basic metadata about the ParaMCP server instance."@)),
            ("mimeType"@, JsonModel::String("application/json"@)),
        ])])),
        ("ttlMs"@, JsonModel::Number(JsonNumber::PosInt(300000))),
        ("cacheScope"@, JsonModel::String("shared"@)),
    ])
}

/// The text of the server-information resource: the JSON object of the
/// server name, protocol version and server version, keys in order.
pub open spec fn info_text() -> Seq<char> {
    "{\"name\":\"paramcp\",\"protocolVersion\":\"2026-07-28\",\"version\":\"0.1.0\"}"@
}

/// The result of `resources/read` for the server-information resource.
pub open spec fn resource_read_json(uri: Seq<char>) -> JsonModel {
    JsonModel::Object(seq![
        ("contents"@, JsonModel::Array(seq![JsonModel::Object(seq![
            ("uri"@, JsonModel::String(uri)),
            ("mimeType"@, JsonModel::String("application/json"@)),
            ("text"@, JsonModel::String(info_text())),
            ("blob"@, JsonModel::Null),
        ])])),
    ])
}

pub open spec fn prompt_argument_json(name: Seq<char>, description: Seq<char>) -> JsonModel {
    JsonModel::Object(seq![
        ("name"@, JsonModel::String(name)),
        ("description"@, JsonModel::String(description)),
        ("required"@, JsonModel::Bool(true)),
    ])
}

/// The result of `prompts/list`: the one prompt, `explain-code`.
pub open spec fn prompts_list_json() -> JsonModel {
    JsonModel::Object(seq![
        ("prompts"@, JsonModel::Array(seq![JsonModel::Object(seq![
            ("name"@, JsonModel::String("explain-code"@)),
            ("description"@, JsonModel::String("Explain a piece of code in plain language."@)),
            ("arguments"@, JsonModel::Array(seq![
                prompt_argument_json("language"@, "Programming language of the code."@),
                prompt_argument_json("code"@, "The code snippet to explain."@),
            ])),
        ])])),
    ])
}

/// The user message of `explain-code`.
pub open spec fn explain_text(language: Seq<char>, code: Seq<char>) -> Seq<char> {
    "Please explain this "@ + language + " code in plain language:\n\n```"@ + language + "\n"@ + code + "\n```"@
}

/// The result of `prompts/get` for `explain-code`.
pub open spec fn prompt_get_json(language: Seq<char>, code: Seq<char>) -> JsonModel {
    JsonModel::Object(seq![
        ("description"@, JsonModel::String("Explain the following "@ + language + " code."@)),
        ("messages"@, JsonModel::Array(seq![JsonModel::Object(seq![
            ("role"@, JsonModel::String("user"@)),
            ("content"@, JsonModel::Object(seq![
                ("type"@, JsonModel::String("text"@)),
                ("text"@, JsonModel::String(explain_text(language, code))),
            ])),
        ])])),
    ])
}

/// A string argument of a prompt, or a default.
pub open spec fn prompt_argument(arguments: Option<JsonModel>, key: Seq<char>, default: Seq<char>) -> Seq<char> {
    match arguments {
        Some(a) => match a.get_str(key) {
            Some(v) => v,
            None => default,
        },
        None => default,
    }
}

/// The response to `resources/read`.
pub open spec fn resources_read_spec(req: RequestModel) -> ResponseModel {
    let id = req.id;
    match req.params {
        None => error_model(id, INVALID_PARAMS, "Missing parameters"@, None),
        Some(p) => match ReadResourceParams::decode_spec(p) {
            Err(e) => error_model(id, INVALID_PARAMS, invalid_params_message(e), None),
            Ok(uri) => if uri == info_uri() {
                success_model(id, resource_read_json(uri))
            } else {
                error_model(id, METHOD_NOT_FOUND, "Resource not found: "@ + uri, None)
            },
        },
    }
}

/// The response to `prompts/get`.
pub open spec fn prompts_get_spec(req: RequestModel) -> ResponseModel {
    let id = req.id;
    match req.params {
        None => error_model(id, INVALID_PARAMS, "Missing parameters"@, None),
        Some(p) => match GetPromptParams::decode_spec(p) {
            Err(e) => error_model(id, INVALID_PARAMS, invalid_params_message(e), None),
            Ok((name, arguments)) => if name == "explain-code"@ {
                success_model(id, prompt_get_json(
                    prompt_argument(arguments, "language"@, "unknown"@),
                    prompt_argument(arguments, "code"@, ""@),
                ))
            } else {
                error_model(id, METHOD_NOT_FOUND, "Prompt not found: "@ + name, None)
            },
        },
    }
}

/// The error text for parameters that do not decode.
pub open spec fn invalid_params_message(e: DecodeErrorModel) -> Seq<char> {
    "Invalid parameter structure: "@ + e.message()
}

// ---------------------------------------------------------------------------
// Steps
// ---------------------------------------------------------------------------

/// What handling a request leads to.
#[derive(Debug)]
pub enum Step<'a, H> {
    /// The response, ready.
    Respond(JsonRpcResponse),
    /// Run a built-in tool on these arguments, then answer with
    /// [`McpServer::finish_tool_call`].
    CallTool { id: Option<RequestId>, tool: &'a BuiltinTool, arguments: Option<JsonValue> },
    /// Forward the request to the host of a sub-server, then answer with
    /// [`McpServer::finish_proxy`].
    Proxy { id: Option<RequestId>, server: String, host: &'a H, request: JsonRpcRequest },
}

pub ghost enum StepModel {
    Respond(ResponseModel),
    CallTool { id: Option<IdModel>, tool: Seq<char>, arguments: Option<JsonModel> },
    Proxy { id: Option<IdModel>, server: Seq<char>, request: RequestModel },
}

impl<'a, H> View for Step<'a, H> {
    type V = StepModel;

    open spec fn view(&self) -> StepModel {
        match self {
            Step::Respond(r) => StepModel::Respond(r@),
            Step::CallTool { id, tool, arguments } => StepModel::CallTool {
                id: id_model(*id),
                tool: tool.tool_name(),
                arguments: crate::json::opt_model(*arguments),
            },
            Step::Proxy { id, server, host, request } => StepModel::Proxy {
                id: id_model(*id),
                server: server@,
                request: request@,
            },
        }
    }
}

/// Core Model Context Protocol stateless server handler.
pub struct McpServer<H> {
    registry: ToolRegistry<BuiltinTool>,
    hub: HubManager<H>,
}

impl<H> McpServer<H> {
    pub closed spec fn wf(self) -> bool {
        self.registry.wf() && self.hub.wf()
    }

    pub closed spec fn registry(self) -> ToolRegistry<BuiltinTool> {
        self.registry
    }

    pub closed spec fn hub(self) -> HubManager<H> {
        self.hub
    }

    /// The tools that `tools/list` reports: the registered tools, then those
    /// of the sub-servers.
    pub open spec fn listed_tools(self) -> Seq<ToolView> {
        self.registry().definitions() + self.hub().routing().merged
    }

    /// The step that a `tools/call` request leads to.
    pub open spec fn tools_call_spec(self, req: RequestModel) -> StepModel {
        match req.params {
            None => StepModel::Respond(error_model(req.id, INVALID_PARAMS, "Missing parameters"@, None)),
            Some(p) => match CallToolParams::decode_spec(p) {
                Err(e) => StepModel::Respond(error_model(req.id, INVALID_PARAMS, invalid_params_message(e), None)),
                Ok((name, arguments)) => {
                    let routed = route_of(self.hub().routing().routes, name);
                    let server = match routed { Some(r) => r.0, None => Seq::empty() };
                    let original = match routed { Some(r) => r.1, None => Seq::empty() };
                    if routed is Some && self.hub().host(server) is Some {
                        StepModel::Proxy {
                            id: req.id,
                            server,
                            request: RequestModel {
                                params: Some(p.with_member("name"@, JsonModel::String(original))),
                                ..req
                            },
                        }
                    } else if self.registry().tool(name) is Some {
                        StepModel::CallTool { id: req.id, tool: name, arguments }
                    } else {
                        StepModel::Respond(error_model(req.id, METHOD_NOT_FOUND, "Tool not found: "@ + name, None))
                    }
                },
            },
        }
    }

    /// The step that a request leads to.
    pub open spec fn handle_spec(self, req: RequestModel) -> StepModel {
        let id = req.id;
        if req.jsonrpc != "2.0"@ {
            StepModel::Respond(error_model(id, INVALID_REQUEST, "Invalid JSON-RPC version. Expected '2.0'"@, None))
        } else if req.method == "initialize"@ {
            StepModel::Respond(success_model(id, initialize_json(client_version(req.params))))
        } else if req.method == "notifications/initialized"@ {
            StepModel::Respond(success_model(id, JsonModel::empty_object()))
        } else if req.method == "server/discover"@ {
            StepModel::Respond(success_model(id, discover_json()))
        } else if req.method == "tools/list"@ {
            StepModel::Respond(success_model(id, tools_list_json(self.listed_tools())))
        } else if req.method == "tools/call"@ {
            self.tools_call_spec(req)
        } else if req.method == "resources/list"@ {
            StepModel::Respond(success_model(id, resources_list_json()))
        } else if req.method == "resources/read"@ {
            StepModel::Respond(resources_read_spec(req))
        } else if req.method == "prompts/list"@ {
            StepModel::Respond(success_model(id, prompts_list_json()))
        } else if req.method == "prompts/get"@ {
            StepModel::Respond(prompts_get_spec(req))
        } else {
            StepModel::Respond(error_model(id, METHOD_NOT_FOUND, "Method not found: "@ + req.method, None))
        }
    }
}


fn capabilities_value() -> (r: JsonValue)
    ensures
        r@ == capabilities_json(),
{
    let es = vec![
        member("tools", JsonValue::empty_object()),
        member("resources", JsonValue::empty_object()),
        member("prompts", JsonValue::empty_object()),
    ];
    let r = object(es);
    proof {
        assert(members_model(es@) =~= capabilities_json()->Object_0);
    }
    r
}

/// `"Invalid parameter structure: "` and the decoding error.
fn invalid_params(id: Option<RequestId>, e: &crate::protocol::DecodeError) -> (r: JsonRpcResponse)
    ensures
        r@ == error_model(id_model(id), INVALID_PARAMS, invalid_params_message(e@), None),
{
    let m = e.message();
    JsonRpcResponse::error(id, INVALID_PARAMS, concat("Invalid parameter structure: ", m.as_str()), None)
}

impl<H> McpServer<H> {
    /// Create a new server instance with the given tool registry and hub manager.
    pub fn new(registry: ToolRegistry<BuiltinTool>, hub: HubManager<H>) -> (r: Self)
        requires
            registry.wf(),
            hub.wf(),
        ensures
            r.wf(),
            r.registry() == registry,
            r.hub() == hub,
    {
        McpServer { registry, hub }
    }

    /// The hub of sub-servers.
    pub fn hub_manager(&self) -> (r: &HubManager<H>)
        ensures
            *r == self.hub(),
    {
        &self.hub
    }

    fn handle_initialize(&self, req: JsonRpcRequest) -> (r: JsonRpcResponse)
        ensures
            r@ == success_model(id_model(req.id), initialize_json(client_version(req@.params))),
    {
        let version = match &req.params {
            Some(p) => match p.get_str("protocolVersion") {
                Some(v) => owned(v),
                None => owned("2024-11-05"),
            },
            None => owned("2024-11-05"),
        };
        let ies = vec![member("name", JsonValue::string("paramcp-hub")), member("version", JsonValue::string(server_version_str()))];
        let info = object(ies);
        let es = vec![
            member("protocolVersion", JsonValue::String(version)),
            member("capabilities", capabilities_value()),
            member("serverInfo", info),
        ];
        let result = object(es);
        proof {
            assert(members_model(ies@) =~= seq![
                ("name"@, JsonModel::String("paramcp-hub"@)),
                ("version"@, JsonModel::String(server_version())),
            ]);
            assert(members_model(es@) =~= initialize_json(client_version(req@.params))->Object_0);
        }
        JsonRpcResponse::success(req.id, result)
    }

    fn handle_discover(&self, id: Option<RequestId>) -> (r: JsonRpcResponse)
        ensures
            r@ == success_model(id_model(id), discover_json()),
    {
        let result = ServerDiscoverResult {
            protocol_version: owned("2026-07-28"),
            capabilities: ServerCapabilities {
                tools: Some(JsonValue::empty_object()),
                resources: Some(JsonValue::empty_object()),
                prompts: Some(JsonValue::empty_object()),
            },
            server_info: ServerInfo { name: owned("paramcp"), version: owned(server_version_str()) },
        };
        let v = result.to_json();
        proof {
            assert(result.capabilities.json()->Object_0 =~= capabilities_json()->Object_0);
            assert(result.json()->Object_0 =~= discover_json()->Object_0);
        }
        JsonRpcResponse::success(id, v)
    }

    fn handle_tools_list(&self, id: Option<RequestId>) -> (r: JsonRpcResponse)
        requires
            self.wf(),
        ensures
            r@ == success_model(id_model(id), tools_list_json(self.listed_tools())),
    {
        let mut tools = self.registry.list_definitions();
        let n = tools.len();
        let sub = self.hub.get_merged_tools();
        let ghost listed = self.listed_tools();
        let mut i: usize = 0;
        while i < sub.len()
            invariant
                listed == self.listed_tools(),
                n == self.registry().definitions().len(),
                i <= sub@.len(),
                sub@.len() == self.hub().routing().merged.len(),
                forall|k: int| 0 <= k < sub@.len() ==> tool_definition_view(#[trigger] sub@[k]) == self.hub().routing().merged[k],
                tools@.len() == n + i,
                forall|k: int| 0 <= k < n + i ==> tool_definition_view(#[trigger] tools@[k]) == listed[k],
            decreases sub@.len() - i,
        {
            tools.push(sub[i].clone());
            i = i + 1;
        }
        let result = ToolsListResult { tools, ttl_ms: Some(300000), cache_scope: Some(owned("shared")) };
        let v = result.to_json();
        proof {
            assert(listed.len() == result.tools@.len());
            assert(crate::protocol::tools_json(result.tools@) =~= Seq::new(listed.len(), |i: int| tool_view_json(listed[i])));
            assert(result.json()->Object_0 =~= tools_list_json(listed)->Object_0);
        }
        JsonRpcResponse::success(id, v)
    }

    fn handle_tools_call<'a>(&'a self, req: JsonRpcRequest) -> (r: Step<'a, H>)
        requires
            self.wf(),
        ensures
            r@ == self.tools_call_spec(req@),
            r matches Step::CallTool { tool, .. } ==> self.registry().tool(tool.tool_name()) == Some(*tool),
            r matches Step::Proxy { server, host, .. } ==> self.hub().host(server@) == Some(*host),
    {
        let params = match &req.params {
            Some(p) => p,
            None => {
                return Step::Respond(JsonRpcResponse::error(req.id, INVALID_PARAMS, owned("Missing parameters"), None));
            },
        };
        let call = match CallToolParams::from_json(params) {
            Ok(c) => c,
            Err(e) => {
                return Step::Respond(invalid_params(req.id, &e));
            },
        };
        if let Some(route) = self.hub.get_routing(call.name.as_str()) {
            if let Some(host) = self.hub.get_host(route.0.as_str()) {
                let modified = with_member(copy_value(params), "name", JsonValue::String(route.1.clone()));
                let id = crate::protocol::copy_id(&req.id);
                let request = JsonRpcRequest {
                    jsonrpc: req.jsonrpc,
                    id: req.id,
                    method: req.method,
                    params: Some(modified),
                };
                return Step::Proxy { id, server: route.0.clone(), host, request };
            }
        }
        match self.registry.get(call.name.as_str()) {
            Some(tool) => Step::CallTool { id: req.id, tool, arguments: call.arguments },
            None => Step::Respond(JsonRpcResponse::error(
                req.id,
                METHOD_NOT_FOUND,
                concat("Tool not found: ", call.name.as_str()),
                None,
            )),
        }
    }

    fn handle_resources_list(&self, id: Option<RequestId>) -> (r: JsonRpcResponse)
        ensures
            r@ == success_model(id_model(id), resources_list_json()),
    {
        let result = ResourcesListResult {
            resources: vec![ResourceDefinition {
                uri: owned("paramcp://server/info"),
                name: owned("Server Info"),
                description: Some(owned("Basic metadata about the ParaMCP server instance.")),
                mime_type: Some(owned("application/json")),
            }],
            ttl_ms: Some(300000),
            cache_scope: Some(owned("shared")),
        };
        let v = result.to_json();
        proof {
            let d = result.resources@[0];
            assert(Seq::new(result.resources@.len(), |i: int| result.resources@[i].json()) =~= seq![d.json()]);
            assert(d.json()->Object_0 =~= resources_list_json()->Object_0[0].1->Array_0[0]->Object_0);
            assert(result.json()->Object_0 =~= resources_list_json()->Object_0);
        }
        JsonRpcResponse::success(id, v)
    }

    fn handle_resources_read(&self, req: JsonRpcRequest) -> (r: JsonRpcResponse)
        ensures
            r@ == resources_read_spec(req@),
    {
        let params = match &req.params {
            Some(p) => p,
            None => {
                return JsonRpcResponse::error(req.id, INVALID_PARAMS, owned("Missing parameters"), None);
            },
        };
        let read = match ReadResourceParams::from_json(params) {
            Ok(p) => p,
            Err(e) => {
                return invalid_params(req.id, &e);
            },
        };
        if str_eq(read.uri.as_str(), "paramcp://server/info") {
            let result = ResourceReadResult {
                contents: vec![ResourceContent {
                    uri: read.uri,
                    mime_type: Some(owned("application/json")),
                    text: Some(owned("{\"name\":\"paramcp\",\"protocolVersion\":\"2026-07-28\",\"version\":\"0.1.0\"}")),
                    blob: None,
                }],
            };
            let v = result.to_json();
            proof {
                let c = result.contents@[0];
                assert(Seq::new(result.contents@.len(), |i: int| result.contents@[i].json()) =~= seq![c.json()]);
                assert(c.json()->Object_0 =~= resource_read_json(c.uri@)->Object_0[0].1->Array_0[0]->Object_0);
                assert(result.json()->Object_0 =~= resource_read_json(c.uri@)->Object_0);
            }
            JsonRpcResponse::success(req.id, v)
        } else {
            JsonRpcResponse::error(req.id, METHOD_NOT_FOUND, concat("Resource not found: ", read.uri.as_str()), None)
        }
    }

    fn handle_prompts_list(&self, id: Option<RequestId>) -> (r: JsonRpcResponse)
        ensures
            r@ == success_model(id_model(id), prompts_list_json()),
    {
        let result = PromptsListResult {
            prompts: vec![PromptDefinition {
                name: owned("explain-code"),
                description: Some(owned("Explain a piece of code in plain language.")),
                arguments: Some(vec![
                    PromptArgument {
                        name: owned("language"),
                        description: Some(owned("Programming language of the code.")),
                        required: Some(true),
                    },
                    PromptArgument {
                        name: owned("code"),
                        description: Some(owned("The code snippet to explain.")),
                        required: Some(true),
                    },
                ]),
            }],
        };
        let v = result.to_json();
        proof {
            let d = result.prompts@[0];
            let args = d.arguments->0;
            assert(args@[0].json()->Object_0 =~= prompt_argument_json("language"@, "Programming language of the code."@)->Object_0);
            assert(args@[1].json()->Object_0 =~= prompt_argument_json("code"@, "The code snippet to explain."@)->Object_0);
            assert(crate::protocol::arguments_json(args@) =~= seq![
                prompt_argument_json("language"@, "Programming language of the code."@),
                prompt_argument_json("code"@, "The code snippet to explain."@),
            ]);
            assert(Seq::new(result.prompts@.len(), |i: int| result.prompts@[i].json()) =~= seq![d.json()]);
            assert(d.json()->Object_0 =~= prompts_list_json()->Object_0[0].1->Array_0[0]->Object_0);
            assert(result.json()->Object_0 =~= prompts_list_json()->Object_0);
        }
        JsonRpcResponse::success(id, v)
    }

    fn handle_prompts_get(&self, req: JsonRpcRequest) -> (r: JsonRpcResponse)
        ensures
            r@ == prompts_get_spec(req@),
    {
        let params = match &req.params {
            Some(p) => p,
            None => {
                return JsonRpcResponse::error(req.id, INVALID_PARAMS, owned("Missing parameters"), None);
            },
        };
        let get = match GetPromptParams::from_json(params) {
            Ok(p) => p,
            Err(e) => {
                return invalid_params(req.id, &e);
            },
        };
        if str_eq(get.name.as_str(), "explain-code") {
            let language = match &get.arguments {
                Some(a) => match a.get_str("language") {
                    Some(v) => v,
                    None => "unknown",
                },
                None => "unknown",
            };
            let code = match &get.arguments {
                Some(a) => match a.get_str("code") {
                    Some(v) => v,
                    None => "",
                },
                None => "",
            };
            let description = concat3("Explain the following ", language, " code.");
            let mut text = concat3("Please explain this ", language, " code in plain language:\n\n```");
            text.append(language);
            text.append("\n");
            text.append(code);
            text.append("\n```");
            let result = PromptGetResult {
                description: Some(description),
                messages: vec![PromptMessage {
                    role: owned("user"),
                    content: PromptContent::Text(PromptMessageText { text }),
                }],
            };
            let v = result.to_json();
            proof {
                let m = result.messages@[0];
                assert(Seq::new(result.messages@.len(), |i: int| result.messages@[i].json()) =~= seq![m.json()]);
                assert(m.json()->Object_0 =~= prompt_get_json(language@, code@)->Object_0[1].1->Array_0[0]->Object_0);
                assert(result.json()->Object_0 =~= prompt_get_json(language@, code@)->Object_0);
            }
            JsonRpcResponse::success(req.id, v)
        } else {
            JsonRpcResponse::error(req.id, METHOD_NOT_FOUND, concat("Prompt not found: ", get.name.as_str()), None)
        }
    }

    /// Handles a stateless or stateful JSON-RPC 2.0 request: the response,
    /// or the tool call or sub-server call that produces it.
    pub fn handle_request<'a>(&'a self, req: JsonRpcRequest) -> (r: Step<'a, H>)
        requires
            self.wf(),
        ensures
            r@ == self.handle_spec(req@),
            r matches Step::CallTool { tool, .. } ==> self.registry().tool(tool.tool_name()) == Some(*tool),
            r matches Step::Proxy { server, host, .. } ==> self.hub().host(server@) == Some(*host),
    {
        if !str_eq(req.jsonrpc.as_str(), "2.0") {
            return Step::Respond(JsonRpcResponse::error(
                req.id,
                INVALID_REQUEST,
                owned("Invalid JSON-RPC version. Expected '2.0'"),
                None,
            ));
        }
        let m = req.method.as_str();
        if str_eq(m, "initialize") {
            Step::Respond(self.handle_initialize(req))
        } else if str_eq(m, "notifications/initialized") {
            Step::Respond(JsonRpcResponse::success(req.id, JsonValue::empty_object()))
        } else if str_eq(m, "server/discover") {
            Step::Respond(self.handle_discover(req.id))
        } else if str_eq(m, "tools/list") {
            Step::Respond(self.handle_tools_list(req.id))
        } else if str_eq(m, "tools/call") {
            self.handle_tools_call(req)
        } else if str_eq(m, "resources/list") {
            Step::Respond(self.handle_resources_list(req.id))
        } else if str_eq(m, "resources/read") {
            Step::Respond(self.handle_resources_read(req))
        } else if str_eq(m, "prompts/list") {
            Step::Respond(self.handle_prompts_list(req.id))
        } else if str_eq(m, "prompts/get") {
            Step::Respond(self.handle_prompts_get(req))
        } else {
            let message = concat("Method not found: ", m);
            Step::Respond(JsonRpcResponse::error(req.id, METHOD_NOT_FOUND, message, None))
        }
    }

    /// The response to a call of a built-in tool: its result; a tool that
    /// fails answers with an error result, not a JSON-RPC error.
    pub fn finish_tool_call(id: Option<RequestId>, outcome: Result<ToolCallResult, String>) -> (r: JsonRpcResponse)
        ensures
            match outcome {
                Ok(res) => r@ == success_model(id_model(id), res.json()),
                Err(e) => exists|res: ToolCallResult|
                    res.is_text("Tool execution failed: "@ + e@, true) && r@ == success_model(id_model(id), #[trigger] res.json()),
            },
    {
        match outcome {
            Ok(res) => {
                let v = res.to_json();
                JsonRpcResponse::success(id, v)
            },
            Err(e) => {
                let res = ToolCallResult::text(concat("Tool execution failed: ", e.as_str()), true);
                let v = res.to_json();
                JsonRpcResponse::success(id, v)
            },
        }
    }

    /// The response to a call forwarded to a sub-server: its reply, or an
    /// internal error when the sub-server could not be reached.
    pub fn finish_proxy(id: Option<RequestId>, server: &str, outcome: Result<JsonRpcResponse, String>) -> (r: JsonRpcResponse)
        ensures
            match outcome {
                Ok(resp) => r@ == resp@,
                Err(e) => r@ == error_model(
                    id_model(id),
                    INTERNAL_ERROR,
                    "Failed to proxy call to subserver '"@ + server@ + "': "@ + e@,
                    None,
                ),
            },
    {
        match outcome {
            Ok(resp) => resp,
            Err(e) => {
                let mut message = concat3("Failed to proxy call to subserver '", server, "': ");
                message.append(e.as_str());
                JsonRpcResponse::error(id, INTERNAL_ERROR, message, None)
            },
        }
    }
}


/// Every answer is addressed to the request it answers: a response carries
/// the request's ID, and a tool call or forwarded call keeps it for the
/// answer that follows.
pub proof fn lemma_answers_keep_request_id<H>(server: McpServer<H>, req: RequestModel)
    ensures
        match server.handle_spec(req) {
            StepModel::Respond(r) => r.id == req.id,
            StepModel::CallTool { id, .. } => id == req.id,
            StepModel::Proxy { id, request, .. } => id == req.id && request.id == req.id,
        },
{
}

/// A request that does not declare JSON-RPC 2.0 is refused as an invalid
/// request, whatever its method.
pub proof fn lemma_wrong_version_is_invalid_request<H>(server: McpServer<H>, req: RequestModel)
    requires
        req.jsonrpc != "2.0"@,
    ensures
        server.handle_spec(req) matches StepModel::Respond(r)
            && r.error matches Some(e) && e.code == INVALID_REQUEST && r.result is None,
{
}

/// A call of a built-in tool runs the built-in tool, also when a sub-server
/// offers a tool of the same name: such a tool is only reachable under its
/// prefixed name.
pub proof fn lemma_builtin_calls_stay_local<H>(server: McpServer<H>, req: RequestModel, name: Seq<char>, arguments: Option<JsonModel>)
    requires
        server.wf(),
        req.params matches Some(p) && CallToolParams::decode_spec(p) == Ok::<_, DecodeErrorModel>((name, arguments)),
        is_builtin_name(name),
        server.registry().tool(name) is Some,
    ensures
        server.tools_call_spec(req) == (StepModel::CallTool { id: req.id, tool: name, arguments }),
{
    server.hub().lemma_routing_wf();
    lemma_builtin_names_never_routed(server.hub().routing(), name);
}

/// A `tools/call` of a tool that is routed to a running sub-server is
/// forwarded to that sub-server under the request's own ID, with the tool's
/// own name in place of the exposed one and every other parameter as it came
/// (parameters given as an array go as they came).
pub proof fn lemma_routed_calls_forward_original_name<H>(
    server: McpServer<H>,
    req: RequestModel,
    params: JsonModel,
    name: Seq<char>,
    arguments: Option<JsonModel>,
    sub: Seq<char>,
    original: Seq<char>,
)
    requires
        req.jsonrpc == "2.0"@,
        req.method == "tools/call"@,
        req.params == Some(params),
        CallToolParams::decode_spec(params) == Ok::<_, DecodeErrorModel>((name, arguments)),
        route_of(server.hub().routing().routes, name) == Some((sub, original)),
        server.hub().host(sub) is Some,
    ensures
        ({
            &&& server.handle_spec(req) matches StepModel::Proxy { id, server: s, request }
            &&& id == req.id
            &&& s == sub
            &&& request.id == req.id
            &&& request.jsonrpc == req.jsonrpc
            &&& request.method == req.method
            &&& request.params matches Some(q)
            &&& params is Object ==> q.get_str("name"@) == Some(original)
            &&& params is Object ==> forall|k: Seq<char>| k != "name"@ ==> #[trigger] q.get(k) == params.get(k)
            &&& !(params is Object) ==> q == params
        }),
{
    reveal_strlit("tools/call");
    reveal_strlit("initialize");
    reveal_strlit("notifications/initialized");
    reveal_strlit("server/discover");
    reveal_strlit("tools/list");
    assert("tools/call"@[0] != "initialize"@[0] && "tools/call"@[0] != "notifications/initialized"@[0]);
    assert("tools/call"@[0] != "server/discover"@[0] && "tools/call"@[6] != "tools/list"@[6]);
    if params is Object {
        lemma_with_member_get(params, "name"@, JsonModel::String(original));
    }
}

/// A `tools/call` of a name that neither a sub-server route nor a tool of
/// the registry holds is answered `Tool not found`; over a registry that
/// holds only the built-in tools, that is every other name that is not
/// routed.
pub proof fn lemma_unknown_tools_are_not_found<H>(server: McpServer<H>, req: RequestModel, name: Seq<char>, arguments: Option<JsonModel>)
    requires
        req.params matches Some(p) && CallToolParams::decode_spec(p) == Ok::<_, DecodeErrorModel>((name, arguments)),
        route_of(server.hub().routing().routes, name) is None,
        forall|n: Seq<char>| #[trigger] server.registry().tool(n) is Some <==> is_builtin_name(n),
        !is_builtin_name(name),
    ensures
        server.tools_call_spec(req) == StepModel::Respond(error_model(req.id, METHOD_NOT_FOUND, "Tool not found: "@ + name, None)),
{
    assert(server.registry().tool(name) is None);
}

/// The resources listed by `resources/list`: the `uri` of each item of
/// its `resources` array.
pub open spec fn listed_uris(result: JsonModel) -> Set<Seq<char>> {
    Set::new(|u: Seq<char>| {
        &&& result.get("resources"@) matches Some(JsonModel::Array(items))
        &&& exists|k: int| 0 <= k < items.len() && (#[trigger] items[k]).get_str("uri"@) == Some(u)
    })
}

/// Every resource that `resources/read` serves is listed by
/// `resources/list`, and the list is not empty.
pub proof fn lemma_readable_resources_are_listed<H>(server: McpServer<H>, read: RequestModel, list: RequestModel, uri: Seq<char>)
    requires
        read.jsonrpc == "2.0"@,
        read.method == "resources/read"@,
        read.params matches Some(p) && ReadResourceParams::decode_spec(p) == Ok::<Seq<char>, DecodeErrorModel>(uri),
        list.jsonrpc == "2.0"@,
        list.method == "resources/list"@,
    ensures
        server.handle_spec(list) matches StepModel::Respond(l) && l.result matches Some(res) && ({
            &&& !listed_uris(res).is_empty()
            &&& (server.handle_spec(read) matches StepModel::Respond(r) && r.error is None ==> listed_uris(res).contains(uri))
            &&& (listed_uris(res).contains(uri) ==> (server.handle_spec(read) matches StepModel::Respond(r) && r.error is None))
        }),
{
    reveal_strlit("resources/list");
    reveal_strlit("resources/read");
    reveal_strlit("initialize");
    reveal_strlit("notifications/initialized");
    reveal_strlit("server/discover");
    reveal_strlit("tools/list");
    reveal_strlit("tools/call");
    assert("resources/list"@[0] != "initialize"@[0] && "resources/list"@[0] != "notifications/initialized"@[0]);
    assert("resources/list"@[0] != "server/discover"@[0] && "resources/list"@[0] != "tools/list"@[0]);
    assert("resources/list"@[0] != "tools/call"@[0] && "resources/read"@[10] != "resources/list"@[10]);
    let res = resources_list_json();
    reveal_strlit("resources");
    reveal_strlit("ttlMs");
    reveal_strlit("cacheScope");
    reveal_strlit("uri");
    let es = res->Object_0;
    assert(res.get("resources"@) == Some(es[0].1));
    let items = es[0].1->Array_0;
    let item = items[0];
    assert(item.get_str("uri"@) == Some(info_uri()));
    assert(listed_uris(res).contains(info_uri()));
    if listed_uris(res).contains(uri) {
        let k = choose|k: int| 0 <= k < items.len() && (#[trigger] items[k]).get_str("uri"@) == Some(uri);
        assert(items.len() == 1);
        assert(k == 0);
    }
}

/// `tools/list` reports every listed tool, built-in ones first, each with
/// its own name and its own description (`null` only when it has none).
pub proof fn lemma_tools_list_reports_descriptions<H>(server: McpServer<H>, req: RequestModel)
    requires
        req.jsonrpc == "2.0"@,
        req.method == "tools/list"@,
    ensures
        server.handle_spec(req) matches StepModel::Respond(r) && r.result matches Some(res) && ({
            let tools = server.listed_tools();
            &&& res.get("tools"@) matches Some(JsonModel::Array(items))
            &&& items.len() == tools.len()
            &&& forall|i: int| 0 <= i < tools.len() ==> {
                &&& (#[trigger] items[i]).get("name"@) == Some(JsonModel::String(tools[i].0))
                &&& items[i].get("description"@) == Some(
                    match tools[i].1 {
                        Some(d) => JsonModel::String(d),
                        None => JsonModel::Null,
                    },
                )
            }
        }),
{
    reveal_strlit("tools/list");
    reveal_strlit("initialize");
    reveal_strlit("notifications/initialized");
    reveal_strlit("server/discover");
    assert("tools/list"@[0] != "initialize"@[0] && "tools/list"@[0] != "notifications/initialized"@[0]);
    assert("tools/list"@[0] != "server/discover"@[0]);
    let tools = server.listed_tools();
    let res = tools_list_json(tools);
    let items = Seq::new(tools.len(), |i: int| tool_view_json(tools[i]));
    assert(res.get("tools"@) == Some(JsonModel::Array(items)));
    assert forall|i: int| 0 <= i < tools.len() implies {
        &&& (#[trigger] items[i]).get("name"@) == Some(JsonModel::String(tools[i].0))
        &&& items[i].get("description"@) == Some(
            match tools[i].1 {
                Some(d) => JsonModel::String(d),
                None => JsonModel::Null,
            },
        )
    } by {
        lemma_tool_json_holds_definition(tools[i]);
    }
}

/// The server over the default registry has every built-in tool.
pub proof fn lemma_default_registry_has_builtins(registry: ToolRegistry<BuiltinTool>, name: Seq<char>)
    requires
        registry.wf(),
        registry.names() == seq!["sys_info"@, "calculator"@, "file_search"@, "fetch_url"@],
        is_builtin_name(name),
    ensures
        registry.tool(name) is Some,
{
    assert(registry.names()[0] == "sys_info"@);
    assert(registry.names()[1] == "calculator"@);
    assert(registry.names()[2] == "file_search"@);
    assert(registry.names()[3] == "fetch_url"@);
    registry.lemma_registered_name_has_tool(name);
}

} // verus!
