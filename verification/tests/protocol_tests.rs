use paramcp::json::{JsonNumber, JsonValue};
use paramcp::protocol::{
    CallToolParams, DecodeError, JsonRpcRequest, JsonRpcResponse, RequestId, ToolDefinition, INTERNAL_ERROR,
    PARSE_ERROR,
};
use paramcp::server::McpServer;
use paramcp::text::{parse_u64, trim};
use paramcp::tools::calculator::{compile, CalcError, CalculatorTool, Token};
use paramcp::tools::ToolRegistry;
use paramcp::transport::http::{cors_origin, CorsOrigin};
use paramcp::transport::stdio::{classify_line, parse_error_response, LineAction};

fn s(x: &str) -> JsonValue {
    JsonValue::String(x.to_string())
}

fn obj(pairs: Vec<(&str, JsonValue)>) -> JsonValue {
    JsonValue::Object(pairs.into_iter().map(|(k, v)| (k.to_string(), v)).collect())
}

fn message(e: &DecodeError) -> String {
    e.message()
}

#[test]
fn tool_definitions_decode_with_optional_description() {
    let v = obj(vec![("name", s("echo")), ("inputSchema", obj(vec![("type", s("object"))]))]);
    let t = ToolDefinition::from_json(&v).unwrap();
    assert_eq!(t.name, "echo");
    assert!(t.description.is_none());
    assert_eq!(t.input_schema.get_str("type"), Some("object"));

    let v = obj(vec![("name", s("echo")), ("description", JsonValue::Null), ("inputSchema", JsonValue::Null)]);
    assert!(ToolDefinition::from_json(&v).unwrap().description.is_none());
}

#[test]
fn tool_definitions_refuse_missing_or_mistyped_fields() {
    let e = ToolDefinition::from_json(&obj(vec![("inputSchema", JsonValue::Null)])).unwrap_err();
    assert_eq!(message(&e), "missing field `name`");
    let e = ToolDefinition::from_json(&obj(vec![("name", s("x"))])).unwrap_err();
    assert_eq!(message(&e), "missing field `inputSchema`");
    let e = ToolDefinition::from_json(&obj(vec![
        ("name", JsonValue::Number(JsonNumber::PosInt(1))),
        ("inputSchema", JsonValue::Null),
    ]))
    .unwrap_err();
    assert_eq!(message(&e), "invalid type: integer `1`, expected a string");
    let e = ToolDefinition::from_json(&s("x")).unwrap_err();
    assert_eq!(message(&e), "invalid type: string \"x\", expected struct ToolDefinition");
}

#[test]
fn call_parameters_decode() {
    let p = CallToolParams::from_json(&obj(vec![("name", s("calculator"))])).unwrap();
    assert_eq!(p.name, "calculator");
    assert!(p.arguments.is_none());
    let p = CallToolParams::from_json(&obj(vec![("name", s("c")), ("arguments", obj(vec![("x", s("y"))]))])).unwrap();
    assert_eq!(p.arguments.unwrap().get_str("x"), Some("y"));
    assert!(CallToolParams::from_json(&JsonValue::Array(vec![])).is_err());
}

#[test]
fn request_metadata_is_extracted() {
    let meta = obj(vec![
        ("io.modelcontextprotocol/clientInfo", obj(vec![("name", s("agent")), ("version", s("1.2"))])),
        ("traceparent", s("00-abc-01")),
    ]);
    let req = JsonRpcRequest {
        jsonrpc: "2.0".to_string(),
        id: None,
        method: "tools/list".to_string(),
        params: Some(obj(vec![("_meta", meta)])),
    };
    let m = req.extract_meta().unwrap();
    let ci = m.client_info.unwrap();
    assert_eq!((ci.name.as_str(), ci.version.as_str()), ("agent", "1.2"));
    assert_eq!(m.traceparent.as_deref(), Some("00-abc-01"));
    assert!(m.tracestate.is_none());

    let bad = JsonRpcRequest {
        jsonrpc: "2.0".to_string(),
        id: None,
        method: "tools/list".to_string(),
        params: Some(obj(vec![("_meta", obj(vec![("traceparent", JsonValue::Bool(true))]))])),
    };
    assert!(bad.extract_meta().is_none());
    let none = JsonRpcRequest { jsonrpc: "2.0".to_string(), id: None, method: "x".to_string(), params: None };
    assert!(none.extract_meta().is_none());
}

#[test]
fn stdio_lines_are_trimmed_and_blank_lines_skipped() {
    assert!(matches!(classify_line("   \t "), LineAction::Skip));
    assert!(matches!(classify_line(""), LineAction::Skip));
    match classify_line("  {\"a\":1}\r") {
        LineAction::Parse(t) => assert_eq!(t, "{\"a\":1}"),
        LineAction::Skip => panic!("line skipped"),
    }
    let r = parse_error_response("expected value");
    assert!(r.id.is_none());
    let e = r.error.unwrap();
    assert_eq!(e.code, PARSE_ERROR);
    assert_eq!(e.message, "Parse error: expected value");
}

#[test]
fn cors_origin_settings() {
    assert!(matches!(cors_origin(None), Ok(CorsOrigin::Unset)));
    assert!(matches!(cors_origin(Some("*".to_string())), Ok(CorsOrigin::Any)));
    match cors_origin(Some("https://a.io".to_string())) {
        Ok(CorsOrigin::Exact(o)) => assert_eq!(o, "https://a.io"),
        _ => panic!("expected an exact origin"),
    }
    assert!(matches!(cors_origin(Some("https://\u{e9}.io\t".to_string())), Ok(CorsOrigin::Exact(_))));
    assert_eq!(
        cors_origin(Some("a\nb".to_string())).unwrap_err(),
        "Invalid CORS allow-origin value 'a\nb': failed to parse header value"
    );
    assert!(cors_origin(Some("a\u{7f}".to_string())).is_err());
}

#[test]
fn text_helpers() {
    assert_eq!(trim("\u{2003} x y \n"), "x y");
    assert_eq!(trim(""), "");
    assert_eq!(parse_u64("42"), Some(42));
    assert_eq!(parse_u64("18446744073709551615"), Some(u64::MAX));
    assert_eq!(parse_u64("18446744073709551616"), None);
    assert_eq!(parse_u64(""), None);
    assert_eq!(parse_u64("-1"), None);
    assert_eq!(parse_u64("1a"), None);
}

#[test]
fn calculator_error_messages() {
    assert_eq!(CalcError::UnexpectedCharacter('x').message(), "Unexpected character: 'x'");
    assert_eq!(CalcError::InvalidNumber("1.2.3".to_string()).message(), "Invalid number: 1.2.3");
    assert_eq!(CalcError::UnexpectedToken(Token::RParen).message(), "Unexpected token: RParen");
    assert_eq!(compile("1 $ 2").error, Some(CalcError::UnexpectedCharacter('$')));
    let r = CalculatorTool::finish(Err(CalcError::ExpectedRParen));
    assert!(r.is_error);
}

#[test]
fn failed_runs_and_proxies_are_reported() {
    let r = McpServer::<u32>::finish_proxy(Some(RequestId::Number(7)), "child", Err("closed".to_string()));
    let e = r.error.unwrap();
    assert_eq!(e.code, INTERNAL_ERROR);
    assert_eq!(e.message, "Failed to proxy call to subserver 'child': closed");
    assert_eq!(r.id, Some(RequestId::Number(7)));

    let reply = JsonRpcResponse::success(Some(RequestId::Number(7)), JsonValue::Null);
    let r = McpServer::<u32>::finish_proxy(Some(RequestId::Number(7)), "child", Ok(reply));
    assert!(r.error.is_none());
    assert!(matches!(r.result, Some(JsonValue::Null)));

    let r = McpServer::<u32>::finish_tool_call(Some(RequestId::Number(8)), Err("boom".to_string()));
    let result = r.result.unwrap();
    assert!(matches!(result.get("isError"), Some(JsonValue::Bool(true))));
    match result.get("content") {
        Some(JsonValue::Array(items)) => assert_eq!(items[0].get_str("text"), Some("Tool execution failed: boom")),
        _ => panic!("no content"),
    }
    let _ = ToolRegistry::new();
}

#[test]
fn parameters_decode_from_arrays_in_field_order() {
    let p = CallToolParams::from_json(&JsonValue::Array(vec![s("calculator"), obj(vec![("expr", s("1"))])])).unwrap();
    assert_eq!(p.name, "calculator");
    assert_eq!(p.arguments.unwrap().get_str("expr"), Some("1"));
    let p = CallToolParams::from_json(&JsonValue::Array(vec![s("c"), JsonValue::Null])).unwrap();
    assert!(p.arguments.is_none());

    let e = CallToolParams::from_json(&JsonValue::Array(vec![s("c")])).unwrap_err();
    assert_eq!(message(&e), "invalid length 1, expected struct CallToolParams with 2 elements");
    let e = CallToolParams::from_json(&JsonValue::Array(vec![])).unwrap_err();
    assert_eq!(message(&e), "invalid length 0, expected struct CallToolParams with 2 elements");
    let e = CallToolParams::from_json(&JsonValue::Array(vec![s("c"), JsonValue::Null, JsonValue::Null])).unwrap_err();
    assert_eq!(message(&e), "invalid length 3, expected fewer elements in array");
    let e = CallToolParams::from_json(&JsonValue::Array(vec![JsonValue::Null, JsonValue::Null])).unwrap_err();
    assert_eq!(message(&e), "invalid type: null, expected a string");
}

#[test]
fn decoding_errors_name_the_unexpected_value() {
    let name_is = |v: JsonValue| message(&CallToolParams::from_json(&obj(vec![("name", v)])).unwrap_err());
    assert_eq!(name_is(JsonValue::Bool(true)), "invalid type: boolean `true`, expected a string");
    assert_eq!(name_is(JsonValue::Number(JsonNumber::NegInt(-12))), "invalid type: integer `-12`, expected a string");
    assert_eq!(name_is(JsonValue::Number(JsonNumber::NegInt(i64::MIN))), "invalid type: integer `-9223372036854775808`, expected a string");
    assert_eq!(name_is(JsonValue::Array(vec![])), "invalid type: sequence, expected a string");
    assert_eq!(name_is(obj(vec![])), "invalid type: map, expected a string");
    let e = CallToolParams::from_json(&JsonValue::Number(JsonNumber::PosInt(0))).unwrap_err();
    assert_eq!(message(&e), "invalid type: integer `0`, expected struct CallToolParams");
    let e = CallToolParams::from_json(&s("a\"b\n")).unwrap_err();
    assert_eq!(message(&e), "invalid type: string \"a\\\"b\\n\", expected struct CallToolParams");
}

#[test]
fn members_are_read_in_order_and_only_once() {
    let e = ToolDefinition::from_json(&obj(vec![
        ("description", JsonValue::Bool(false)),
        ("name", JsonValue::Number(JsonNumber::PosInt(5))),
        ("inputSchema", JsonValue::Null),
    ]))
    .unwrap_err();
    assert_eq!(message(&e), "invalid type: boolean `false`, expected a string");
    let e = CallToolParams::from_json(&obj(vec![("name", s("a")), ("name", s("b"))])).unwrap_err();
    assert_eq!(message(&e), "duplicate field `name`");
    let p = CallToolParams::from_json(&obj(vec![("other", JsonValue::Null), ("name", s("a"))])).unwrap();
    assert_eq!(p.name, "a");
    let e = ToolDefinition::from_json(&obj(vec![("description", JsonValue::Number(JsonNumber::PosInt(1)))])).unwrap_err();
    assert_eq!(message(&e), "invalid type: integer `1`, expected a string");
}
