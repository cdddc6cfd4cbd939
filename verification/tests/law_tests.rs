use paramcp::hub::{handshake_error, HubManager, Outgoing, PendingRequests};
use paramcp::json::JsonValue;
use paramcp::tools::file_search::{FileSearchTool, SearchMatches};
use paramcp::protocol::{JsonRpcRequest, JsonRpcResponse, RequestId};
use paramcp::text::is_whitespace;
use paramcp::tools::calculator::tokenize;
use paramcp::tools::ToolRegistry;

#[test]
fn white_space_is_what_char_is_whitespace_says() {
    for u in 0u32..=0x10FFFF {
        if let Some(c) = char::from_u32(u) {
            assert_eq!(is_whitespace(c), c.is_whitespace(), "U+{:04X}", u);
        }
    }
}

#[test]
fn the_default_registry_holds_only_the_built_in_tools() {
    let registry = ToolRegistry::new();
    for n in ["sys_info", "calculator", "file_search", "fetch_url"] {
        assert!(registry.get(n).is_some(), "{} missing", n);
    }
    assert!(registry.get("echo").is_none());
    assert!(registry.get("").is_none());
    assert_eq!(registry.list_definitions().len(), 4);
}

#[test]
fn forwarded_numbers_increase_from_one() {
    let mut pending: PendingRequests<u32> = PendingRequests::new();
    let mut sent = Vec::new();
    for k in 0..5u32 {
        let id = if k == 2 { None } else { Some(RequestId::String(format!("c{}", k))) };
        let req = JsonRpcRequest { jsonrpc: "2.0".to_string(), id, method: "tools/list".to_string(), params: None };
        match pending.dispatch(req, k) {
            Outgoing::Request(r) => sent.push(r.id.unwrap()),
            Outgoing::Notification(_, _) => {}
        }
    }
    assert_eq!(
        sent,
        vec![RequestId::Number(1), RequestId::Number(2), RequestId::Number(3), RequestId::Number(4)]
    );
}

#[test]
fn a_handshake_reply_with_an_error_fails_the_handshake() {
    let bad = JsonRpcResponse::error(Some(RequestId::Number(0)), -32600, "no".to_string(), None);
    assert_eq!(handshake_error(&bad).unwrap().message, "no");
    let good = JsonRpcResponse::success(Some(RequestId::Number(0)), JsonValue::Null);
    assert!(handshake_error(&good).is_none());
}

#[test]
fn white_space_between_texts_keeps_their_tokens() {
    let a = tokenize("1+2").unwrap();
    let b = tokenize("(3*.5)").unwrap();
    let joined = tokenize("1+2\t(3*.5)").unwrap();
    assert_eq!(joined, [a, b].concat());
    assert_eq!(tokenize("1 .").unwrap_err(), tokenize(".").unwrap_err());
    assert_eq!(tokenize("$ 1").unwrap_err(), tokenize("$").unwrap_err());
}

#[test]
fn a_full_search_records_no_more_lines() {
    let pattern = FileSearchTool::compile_pattern("x").unwrap();
    let mut matches = SearchMatches::new(2);
    for i in 0..5 {
        matches.record_line(&pattern, "f.txt", i, "x");
    }
    assert!(matches.is_full());
    match matches.report("/d", "x") {
        paramcp::json::JsonValue::Object(members) => {
            let count = members.iter().find(|(k, _)| k == "matches_count").unwrap();
            assert!(matches!(count.1, paramcp::json::JsonValue::Number(paramcp::json::JsonNumber::PosInt(2))));
        }
        _ => panic!("report is an object"),
    }
}

fn listing(names: &[&str]) -> JsonRpcResponse {
    let tools = names
        .iter()
        .map(|n| {
            JsonValue::Object(vec![
                ("name".to_string(), JsonValue::String(n.to_string())),
                ("inputSchema".to_string(), JsonValue::Object(vec![])),
            ])
        })
        .collect();
    JsonRpcResponse::success(
        Some(RequestId::Number(1)),
        JsonValue::Object(vec![("tools".to_string(), JsonValue::Array(tools))]),
    )
}

#[test]
fn a_hub_from_started_sub_servers_routes_every_tool_to_a_host() {
    let hub: HubManager<u32> = HubManager::from_sub_servers(vec![
        ("a".to_string(), 1, Ok(listing(&["echo", "calculator"]))),
        ("b".to_string(), 2, Err("no reply".to_string())),
        ("c".to_string(), 3, Ok(listing(&["echo"]))),
    ]);
    let names: Vec<String> = hub.get_merged_tools().iter().map(|d| d.name.clone()).collect();
    assert_eq!(names, vec!["echo", "a__calculator", "c__echo"]);
    for n in &names {
        let (server, _) = hub.get_routing(n).unwrap();
        assert!(hub.get_host(server).is_some());
    }
    assert_eq!(hub.get_host("b"), Some(&2));
    assert_eq!(hub.get_routing("c__echo"), Some(&("c".to_string(), "echo".to_string())));
}

#[test]
fn the_handshake_notifies_after_a_clean_reply() {
    let bad = JsonRpcResponse::error(Some(RequestId::Number(0)), -32600, "no".to_string(), None);
    assert!(matches!(paramcp::hub::after_initialize(&bad), paramcp::hub::HandshakeStep::Fail(e) if e.message == "no"));
    let good = JsonRpcResponse::success(Some(RequestId::Number(0)), JsonValue::Null);
    match paramcp::hub::after_initialize(&good) {
        paramcp::hub::HandshakeStep::Notify(n) => {
            assert_eq!(n.method, "notifications/initialized");
            assert!(n.id.is_none());
        }
        _ => panic!("expected the notification"),
    }
}
