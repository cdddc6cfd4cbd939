use paramcp::hub::{HubManager, Incoming, Outgoing, PendingRequests};
use paramcp::json::{JsonNumber, JsonValue};
use paramcp::protocol::{JsonRpcRequest, JsonRpcResponse, RequestId, ToolCallContent, ToolCallResult};
use paramcp::server::{McpServer, Step};
use paramcp::tools::calculator::{CalcError, CalculatorStep, CalculatorTool, Op, Program};
use paramcp::tools::{BuiltinTool, ToolRegistry};
use paramcp::transport::http::{check_mcp_post, health_body, HttpDecision, McpHeaders};

fn s(x: &str) -> JsonValue {
    JsonValue::String(x.to_string())
}

fn obj(pairs: Vec<(&str, JsonValue)>) -> JsonValue {
    JsonValue::Object(pairs.into_iter().map(|(k, v)| (k.to_string(), v)).collect())
}

fn request(id: Option<RequestId>, method: &str, params: Option<JsonValue>) -> JsonRpcRequest {
    JsonRpcRequest { jsonrpc: "2.0".to_string(), id, method: method.to_string(), params }
}

fn respond<H>(step: Step<'_, H>) -> JsonRpcResponse {
    match step {
        Step::Respond(r) => r,
        _ => panic!("expected a ready response"),
    }
}

fn text_of(result: &JsonValue) -> String {
    match result.get("content") {
        Some(JsonValue::Array(items)) => items[0].get_str("text").unwrap().to_string(),
        _ => panic!("no content"),
    }
}

fn run(program: &Program) -> Result<f64, CalcError> {
    let mut stack: Vec<f64> = Vec::new();
    for op in &program.ops {
        match op {
            Op::Push(lit) => stack.push(lit.parse::<f64>().unwrap()),
            Op::Neg => {
                let a = stack.pop().unwrap();
                stack.push(-a);
            }
            _ => {
                let b = stack.pop().unwrap();
                let a = stack.pop().unwrap();
                stack.push(match op {
                    Op::Add => a + b,
                    Op::Sub => a - b,
                    Op::Mul => a * b,
                    _ => {
                        if b == 0.0 {
                            return Err(CalcError::DivisionByZero);
                        }
                        a / b
                    }
                });
            }
        }
    }
    match &program.error {
        Some(e) => Err(e.clone()),
        None => Ok(stack[0]),
    }
}

fn server() -> McpServer<u32> {
    McpServer::new(ToolRegistry::new(), HubManager::empty())
}

#[test]
fn test_server_discover() {
    let server = server();
    let resp = respond(server.handle_request(request(Some(RequestId::Number(1)), "server/discover", None)));
    assert_eq!(resp.jsonrpc, "2.0");
    assert_eq!(resp.id, Some(RequestId::Number(1)));
    assert!(resp.error.is_none());
    let result = resp.result.unwrap();
    assert_eq!(result.get("protocolVersion").unwrap().as_str().unwrap(), "2026-07-28");
    assert_eq!(result.get("serverInfo").unwrap().get("name").unwrap().as_str().unwrap(), "paramcp");
}

#[test]
fn test_tools_list() {
    let server = server();
    let resp = respond(server.handle_request(request(Some(RequestId::Number(2)), "tools/list", None)));
    assert!(resp.error.is_none());
    let result = resp.result.unwrap();
    let tools = match result.get("tools").unwrap() {
        JsonValue::Array(t) => t,
        _ => panic!("tools is not an array"),
    };
    assert!(tools.len() >= 4);
    let names: Vec<&str> = tools.iter().map(|t| t.get("name").unwrap().as_str().unwrap()).collect();
    assert!(names.contains(&"sys_info"));
    assert!(names.contains(&"calculator"));
    assert!(names.contains(&"file_search"));
    assert!(names.contains(&"fetch_url"));
    assert!(matches!(result.get("ttlMs").unwrap(), JsonValue::Number(JsonNumber::PosInt(300_000))));
    assert_eq!(result.get("cacheScope").unwrap().as_str().unwrap(), "shared");
}

#[test]
fn test_tools_call_calculator() {
    let server = server();
    let params = obj(vec![("name", s("calculator")), ("arguments", obj(vec![("expr", s("10 + 5 * 2"))]))]);
    let req = request(Some(RequestId::String("calc".to_string())), "tools/call", Some(params));
    let resp = match server.handle_request(req) {
        Step::CallTool { id, tool: BuiltinTool::Calculator(calc), arguments } => {
            let outcome = match calc.prepare(arguments.as_ref()) {
                CalculatorStep::Done(r) => r,
                CalculatorStep::Evaluate(p) => {
                    CalculatorTool::finish(run(&p).map(|v| format!("{}", v)))
                }
            };
            McpServer::<u32>::finish_tool_call(id, Ok(outcome))
        }
        _ => panic!("expected a call of the calculator"),
    };
    assert!(resp.error.is_none());
    assert_eq!(resp.id, Some(RequestId::String("calc".to_string())));
    let result = resp.result.unwrap();
    assert!(matches!(result.get("isError"), Some(JsonValue::Bool(false))));
    assert_eq!(text_of(&result), "20");
}

#[test]
fn test_invalid_request() {
    let server = server();
    let req = JsonRpcRequest {
        jsonrpc: "1.0".to_string(),
        id: Some(RequestId::Number(100)),
        method: "server/discover".to_string(),
        params: None,
    };
    let resp = respond(server.handle_request(req));
    assert!(resp.error.is_some());
    assert_eq!(resp.error.unwrap().code, -32600);
}

#[test]
fn test_resources_read() {
    let server = server();
    let req = request(Some(RequestId::Number(5)), "resources/read", Some(obj(vec![("uri", s("paramcp://server/info"))])));
    let resp = respond(server.handle_request(req));
    assert!(resp.error.is_none());
    let result = resp.result.unwrap();
    let contents = match result.get("contents").unwrap() {
        JsonValue::Array(c) => c,
        _ => panic!("contents is not an array"),
    };
    assert_eq!(contents.len(), 1);
    assert_eq!(contents[0].get("uri").unwrap().as_str().unwrap(), "paramcp://server/info");
    let text = contents[0].get("text").unwrap().as_str().unwrap();
    assert!(text.contains("paramcp"));
}

#[test]
fn test_prompts_get() {
    let server = server();
    let params = obj(vec![
        ("name", s("explain-code")),
        ("arguments", obj(vec![("language", s("rust")), ("code", s("fn main() {}"))])),
    ]);
    let resp = respond(server.handle_request(request(Some(RequestId::Number(6)), "prompts/get", Some(params))));
    assert!(resp.error.is_none());
    let result = resp.result.unwrap();
    let messages = match result.get("messages").unwrap() {
        JsonValue::Array(m) => m,
        _ => panic!("messages is not an array"),
    };
    assert_eq!(messages.len(), 1);
    let text = messages[0].get("content").unwrap().get("text").unwrap().as_str().unwrap();
    assert!(text.contains("rust"));
    assert!(text.contains("fn main() {}"));
    assert_eq!(text, "Please explain this rust code in plain language:\n\n```rust\nfn main() {}\n```");
}

#[test]
fn unknown_methods_and_resources_are_not_found() {
    let server = server();
    let resp = respond(server.handle_request(request(Some(RequestId::Number(7)), "nope", None)));
    let e = resp.error.unwrap();
    assert_eq!(e.code, -32601);
    assert_eq!(e.message, "Method not found: nope");
    let resp = respond(server.handle_request(request(None, "resources/read", Some(obj(vec![("uri", s("x://y"))])))));
    assert_eq!(resp.error.unwrap().message, "Resource not found: x://y");
    let resp = respond(server.handle_request(request(None, "prompts/get", Some(obj(vec![("name", s("other"))])))));
    assert_eq!(resp.error.unwrap().message, "Prompt not found: other");
    let resp = respond(server.handle_request(request(None, "tools/call", Some(obj(vec![("name", s("missing"))])))));
    let e = resp.error.unwrap();
    assert_eq!(e.code, -32601);
    assert_eq!(e.message, "Tool not found: missing");
}

#[test]
fn bad_parameters_are_invalid_params() {
    let server = server();
    let resp = respond(server.handle_request(request(Some(RequestId::Number(8)), "tools/call", None)));
    let e = resp.error.unwrap();
    assert_eq!(e.code, -32602);
    assert_eq!(e.message, "Missing parameters");
    let resp = respond(server.handle_request(request(Some(RequestId::Number(9)), "tools/call", Some(obj(vec![])))));
    let e = resp.error.unwrap();
    assert_eq!(e.code, -32602);
    assert_eq!(e.message, "Invalid parameter structure: missing field `name`");
    let resp = respond(server.handle_request(request(None, "prompts/get", Some(s("x")))));
    assert_eq!(resp.error.unwrap().code, -32602);
}

#[test]
fn initialize_echoes_the_client_protocol_version() {
    let server = server();
    let params = obj(vec![("protocolVersion", s("2025-03-26"))]);
    let resp = respond(server.handle_request(request(Some(RequestId::Number(0)), "initialize", Some(params))));
    let result = resp.result.unwrap();
    assert_eq!(result.get_str("protocolVersion"), Some("2025-03-26"));
    assert_eq!(result.get("serverInfo").unwrap().get_str("name"), Some("paramcp-hub"));
    let resp = respond(server.handle_request(request(Some(RequestId::Number(0)), "initialize", None)));
    assert_eq!(resp.result.unwrap().get_str("protocolVersion"), Some("2024-11-05"));
    let resp = respond(server.handle_request(request(None, "notifications/initialized", None)));
    assert!(matches!(resp.result, Some(JsonValue::Object(ref m)) if m.is_empty()));
}

#[test]
fn tool_failures_are_error_results() {
    let resp = McpServer::<u32>::finish_tool_call(Some(RequestId::Number(3)), Err("boom".to_string()));
    let result = resp.result.unwrap();
    assert!(matches!(result.get("isError"), Some(JsonValue::Bool(true))));
    assert_eq!(text_of(&result), "Tool execution failed: boom");
    let resp = McpServer::<u32>::finish_proxy(Some(RequestId::Number(4)), "srv", Err("closed".to_string()));
    let e = resp.error.unwrap();
    assert_eq!(e.code, -32603);
    assert_eq!(e.message, "Failed to proxy call to subserver 'srv': closed");
}

fn tools_reply(names: &[&str]) -> JsonRpcResponse {
    let tools = names
        .iter()
        .map(|n| obj(vec![("name", s(n)), ("description", JsonValue::Null), ("inputSchema", obj(vec![]))]))
        .collect();
    JsonRpcResponse::success(Some(RequestId::Number(1)), obj(vec![("tools", JsonValue::Array(tools))]))
}

#[test]
fn test_hub_aggregation_and_proxy() {
    let mut hub: HubManager<u32> = HubManager::empty();
    hub.add_host("stateless-mock".to_string(), 1);
    hub.merge_listing("stateless-mock", &tools_reply(&["stateless_tool"]));
    hub.add_sub_server("legacy-mock".to_string(), 2, Ok(tools_reply(&["legacy_tool", "calculator", "stateless_tool"])));
    let server = McpServer::new(ToolRegistry::new(), hub);

    let resp = respond(server.handle_request(request(Some(RequestId::Number(1)), "tools/list", None)));
    let result = resp.result.unwrap();
    let names: Vec<String> = match result.get("tools").unwrap() {
        JsonValue::Array(t) => t.iter().map(|t| t.get_str("name").unwrap().to_string()).collect(),
        _ => panic!(),
    };
    for n in ["sys_info", "calculator", "stateless_tool", "legacy_tool", "legacy-mock__calculator", "legacy-mock__stateless_tool"] {
        assert!(names.iter().any(|x| x == n), "{} missing", n);
    }

    let call = |name: &str| {
        request(Some(RequestId::Number(2)), "tools/call", Some(obj(vec![("name", s(name)), ("arguments", obj(vec![]))])))
    };
    match server.handle_request(call("stateless_tool")) {
        Step::Proxy { server: sub, host, request, id } => {
            assert_eq!(sub, "stateless-mock");
            assert_eq!(*host, 1);
            assert_eq!(id, Some(RequestId::Number(2)));
            assert_eq!(request.params.unwrap().get_str("name"), Some("stateless_tool"));
        }
        _ => panic!("expected a forwarded call"),
    }
    match server.handle_request(call("legacy-mock__stateless_tool")) {
        Step::Proxy { server: sub, host, request, .. } => {
            assert_eq!(sub, "legacy-mock");
            assert_eq!(*host, 2);
            assert_eq!(request.params.unwrap().get_str("name"), Some("stateless_tool"));
        }
        _ => panic!("expected a forwarded call"),
    }
    assert!(matches!(server.handle_request(call("calculator")), Step::CallTool { tool: BuiltinTool::Calculator(_), .. }));
}

#[test]
fn unreachable_sub_servers_add_a_host_but_no_tools() {
    let mut hub: HubManager<u32> = HubManager::empty();
    hub.add_sub_server("down".to_string(), 9, Err("broken pipe".to_string()));
    assert_eq!(hub.get_host("down"), Some(&9));
    assert_eq!(hub.get_merged_tools().len(), 0);
    hub.add_sub_server("up".to_string(), 3, Ok(tools_reply(&["t"])));
    assert_eq!(hub.get_routing("t"), Some(&("up".to_string(), "t".to_string())));
}

#[test]
fn listing_errors_add_nothing() {
    let mut hub: HubManager<u32> = HubManager::empty();
    hub.add_host("a".to_string(), 1);
    hub.merge_listing("a", &JsonRpcResponse::error(Some(RequestId::Number(1)), -32603, "no".to_string(), None));
    hub.merge_listing("a", &JsonRpcResponse::success(None, obj(vec![("tools", s("none"))])));
    hub.merge_listing("a", &tools_reply(&[]));
    assert_eq!(hub.get_merged_tools().len(), 0);
    assert!(hub.get_routing("x").is_none());
    assert_eq!(hub.get_host("a"), Some(&1));
    assert_eq!(hub.get_host("b"), None);
}

#[test]
fn pending_requests_restore_the_original_id() {
    let mut pending: PendingRequests<&str> = PendingRequests::new();
    let req = request(Some(RequestId::String("abc".to_string())), "tools/call", None);
    let forwarded = match pending.dispatch(req, "caller") {
        Outgoing::Request(r) => r,
        _ => panic!(),
    };
    assert_eq!(forwarded.id, Some(RequestId::Number(1)));
    let reply = JsonRpcResponse::success(Some(RequestId::Number(1)), s("ok"));
    match pending.resolve(reply) {
        Incoming::Delivered(resp, to) => {
            assert_eq!(resp.id, Some(RequestId::String("abc".to_string())));
            assert_eq!(to, "caller");
        }
        _ => panic!(),
    }
    // A second reply with the same number is no longer tracked.
    assert!(matches!(pending.resolve(JsonRpcResponse::success(Some(RequestId::Number(1)), s("ok"))), Incoming::Untracked(_)));
    // Notifications pass through; replies without an ID are ignored.
    assert!(matches!(pending.dispatch(request(None, "notifications/initialized", None), "n"), Outgoing::Notification(_, "n")));
    assert!(matches!(pending.resolve(JsonRpcResponse::success(None, s("x"))), Incoming::Ignored));
    // A string ID holding the number finds the request too.
    let second = match pending.dispatch(request(Some(RequestId::Number(7)), "x", None), "second") {
        Outgoing::Request(r) => r,
        _ => panic!(),
    };
    assert_eq!(second.id, Some(RequestId::Number(2)));
    match pending.resolve(JsonRpcResponse::success(Some(RequestId::String("2".to_string())), s("ok"))) {
        Incoming::Delivered(resp, to) => {
            assert_eq!(resp.id, Some(RequestId::Number(7)));
            assert_eq!(to, "second");
        }
        _ => panic!(),
    }
}

fn headers<'a>(key: Option<&'a str>, version: Option<&'a str>, method: Option<&'a str>, name: Option<&'a str>) -> McpHeaders<'a> {
    McpHeaders { api_key: key, protocol_version: version, method, name }
}

#[test]
fn test_http_transport() {
    let payload = request(Some(RequestId::Number(10)), "server/discover", Some(obj(vec![])));
    let ok = check_mcp_post(None, &headers(None, Some("2026-07-28"), Some("server/discover"), None), &payload);
    assert!(matches!(ok, HttpDecision::Handle));
    let missing = check_mcp_post(None, &headers(None, None, Some("server/discover"), None), &payload);
    assert!(matches!(missing, HttpDecision::Reject(400, _)));
    let mismatched = check_mcp_post(None, &headers(None, Some("2026-07-28"), Some("tools/list"), None), &payload);
    match mismatched {
        HttpDecision::Reject(400, body) => {
            assert_eq!(body, "Mcp-Method header 'tools/list' does not match JSON-RPC body method 'server/discover'")
        }
        _ => panic!(),
    }
}

#[test]
fn tools_call_needs_a_matching_name_header() {
    let payload = request(Some(RequestId::Number(1)), "tools/call", Some(obj(vec![("name", s("calculator"))])));
    let h = |n| headers(None, Some("2026-07-28"), Some("tools/call"), n);
    assert!(matches!(check_mcp_post(None, &h(Some("calculator")), &payload), HttpDecision::Handle));
    assert!(matches!(check_mcp_post(None, &h(None), &payload), HttpDecision::Reject(400, _)));
    match check_mcp_post(None, &h(Some("other")), &payload) {
        HttpDecision::Reject(400, body) => assert_eq!(body, "Mcp-Name header 'other' does not match parameter name 'calculator'"),
        _ => panic!(),
    }
    let nameless = request(Some(RequestId::Number(1)), "tools/call", Some(obj(vec![])));
    match check_mcp_post(None, &h(Some("calculator")), &nameless) {
        HttpDecision::Reject(400, body) => assert_eq!(body, "Missing tool name inside request parameters object"),
        _ => panic!(),
    }
}

#[test]
fn test_health_endpoint() {
    let body = health_body();
    assert_eq!(body.get_str("status"), Some("ok"));
    assert_eq!(body.get_str("version"), Some("0.1.0"));
}

#[test]
fn test_http_api_key_auth() {
    let payload = request(Some(RequestId::Number(1)), "server/discover", Some(obj(vec![])));
    let key = Some("secret-key-123");
    let no_key = check_mcp_post(key, &headers(None, Some("2026-07-28"), Some("server/discover"), None), &payload);
    assert!(matches!(no_key, HttpDecision::Reject(401, _)));
    let wrong = check_mcp_post(key, &headers(Some("wrong-key"), Some("2026-07-28"), Some("server/discover"), None), &payload);
    assert!(matches!(wrong, HttpDecision::Reject(401, _)));
    let right = check_mcp_post(key, &headers(Some("secret-key-123"), Some("2026-07-28"), Some("server/discover"), None), &payload);
    assert!(matches!(right, HttpDecision::Handle));
}

#[test]
fn tool_results_encode_as_content_and_is_error() {
    let r = ToolCallResult::text("hi".to_string(), false);
    let v = r.to_json();
    assert_eq!(text_of(&v), "hi");
    match &r.content[0] {
        ToolCallContent::Text(t) => assert_eq!(t.text, "hi"),
    }
    assert!(matches!(v.get("content").unwrap().get("type"), None));
}
