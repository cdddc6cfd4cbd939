use paramcp::hub::HubManager;
use paramcp::json::{JsonNumber, JsonValue};
use paramcp::protocol::{JsonRpcRequest, JsonRpcResponse, RequestId, ToolCallContent, ToolCallResult};
use paramcp::server::{McpServer, Step};
use paramcp::tools::fetch_url::{replace_literal, FetchUrlTool};
use paramcp::tools::file_search::{
    extension_selected, has_zero_byte, missing_arg, skip_directory, FileSearchTool, SearchMatches, MAX_MATCHES,
};
use paramcp::tools::sys_info::{HostMetrics, SysInfoTool};
use paramcp::tools::{BuiltinTool, ToolRegistry};
use serde_json::Value;
use std::io::BufRead;
use sysinfo::System;

fn s(x: &str) -> JsonValue {
    JsonValue::String(x.to_string())
}

fn obj(pairs: Vec<(&str, JsonValue)>) -> JsonValue {
    JsonValue::Object(pairs.into_iter().map(|(k, v)| (k.to_string(), v)).collect())
}

fn request(id: i64, method: &str, params: JsonValue) -> JsonRpcRequest {
    JsonRpcRequest { jsonrpc: "2.0".to_string(), id: Some(RequestId::Number(id)), method: method.to_string(), params: Some(params) }
}

fn to_serde(v: &JsonValue) -> Value {
    match v {
        JsonValue::Null => Value::Null,
        JsonValue::Bool(b) => Value::Bool(*b),
        JsonValue::Number(JsonNumber::PosInt(u)) => Value::from(*u),
        JsonValue::Number(JsonNumber::NegInt(i)) => Value::from(*i),
        JsonValue::Number(JsonNumber::Float(bits)) => Value::from(f64::from_bits(*bits)),
        JsonValue::String(s) => Value::String(s.clone()),
        JsonValue::Array(items) => Value::Array(items.iter().map(to_serde).collect()),
        JsonValue::Object(members) => {
            let mut map = serde_json::Map::new();
            for (k, v) in members {
                map.insert(k.clone(), to_serde(v));
            }
            Value::Object(map)
        }
    }
}

fn only_text(r: &ToolCallResult) -> &str {
    assert_eq!(r.content.len(), 1);
    match &r.content[0] {
        ToolCallContent::Text(t) => t.text.as_str(),
    }
}

fn server() -> McpServer<u32> {
    McpServer::new(ToolRegistry::new(), HubManager::empty())
}

fn result_text(resp: &JsonRpcResponse) -> (bool, String) {
    let result = resp.result.as_ref().unwrap();
    let is_error = matches!(result.get("isError"), Some(JsonValue::Bool(true)));
    let text = match result.get("content") {
        Some(JsonValue::Array(items)) => items[0].get_str("text").unwrap().to_string(),
        _ => panic!("no content"),
    };
    (is_error, text)
}

fn host_metrics() -> HostMetrics {
    let mut sys = System::new_all();
    sys.refresh_all();
    let total = sys.total_memory();
    let used = sys.used_memory();
    let load = if total > 0 { used as f64 / total as f64 * 100.0 } else { 0.0 };
    HostMetrics {
        hostname: System::host_name(),
        os_name: System::name(),
        os_version: System::os_version(),
        kernel_version: System::kernel_version(),
        cpu_cores: sys.cpus().len(),
        cpu_usage: format!("{:.2}", sys.global_cpu_info().cpu_usage()),
        total_memory: total,
        used_memory: used,
        memory_usage: format!("{:.2}", load),
    }
}

#[test]
fn test_tools_call_sys_info() {
    let server = server();
    let params = obj(vec![("name", s("sys_info")), ("arguments", obj(vec![]))]);
    let resp = match server.handle_request(request(3, "tools/call", params)) {
        Step::CallTool { id, tool: BuiltinTool::SysInfo(_), .. } => {
            let text = serde_json::to_string_pretty(&to_serde(&host_metrics().report())).unwrap();
            McpServer::<u32>::finish_tool_call(id, Ok(SysInfoTool::report_result(text)))
        }
        _ => panic!("expected a call of sys_info"),
    };
    assert!(resp.error.is_none());
    let (is_error, text) = result_text(&resp);
    assert!(!is_error);
    assert!(text.contains("hostname"));
    assert!(text.contains("cpu"));
    assert!(text.contains("memory"));
}

#[test]
fn sys_info_report_has_fixed_shape() {
    let m = HostMetrics {
        hostname: Some("box".to_string()),
        os_name: Some("Linux".to_string()),
        os_version: None,
        kernel_version: Some("6.1".to_string()),
        cpu_cores: 8,
        cpu_usage: "12.50".to_string(),
        total_memory: 1000,
        used_memory: 250,
        memory_usage: "25.00".to_string(),
    };
    let v = to_serde(&m.report());
    assert_eq!(
        v,
        serde_json::from_str::<Value>(
            r#"{"hostname":"box","os":"Linux vUnknown","kernel":"6.1",
                "cpu":{"cores":8,"usage_percent":"12.50%"},
                "memory":{"total_bytes":1000,"used_bytes":250,"usage_percent":"25.00%"}}"#
        )
        .unwrap()
    );
}

/// Searches files given as (path, bytes) the way the tool does, with the
/// library's decisions, and returns the report.
fn search_files(dir: &str, pattern: &str, extension: Option<&str>, files: &[(&str, &[u8])]) -> ToolCallResult {
    let tool = FileSearchTool::new();
    let mut args = vec![("dir", s(dir)), ("pattern", s(pattern))];
    if let Some(e) = extension {
        args.push(("extension", s(e)));
    }
    let req = match tool.prepare(Some(&obj(args))) {
        Ok(r) => r,
        Err(res) => return res,
    };
    let pattern = match FileSearchTool::compile_pattern(&req.pattern) {
        Ok(p) => p,
        Err(res) => return res,
    };
    let mut matches = SearchMatches::new(MAX_MATCHES);
    for (path, bytes) in files {
        let ext = path.rsplit_once('.').map(|(_, e)| e);
        if !extension_selected(req.extension.as_deref(), ext) {
            continue;
        }
        if has_zero_byte(&bytes[..bytes.len().min(1024)]) {
            continue;
        }
        let file = format!("{}/{}", req.dir, path);
        for (i, line) in bytes.lines().enumerate() {
            if matches.is_full() {
                break;
            }
            if let Ok(line) = line {
                matches.record_line(&pattern, &file, i, &line);
            }
        }
    }
    let report = matches.report(&req.dir, &req.pattern);
    ToolCallResult::text(serde_json::to_string_pretty(&to_serde(&report)).unwrap(), false)
}

#[test]
fn test_tools_call_file_search() {
    let server = server();
    let project_dir = "/work/paramcp";
    let params = obj(vec![
        ("name", s("file_search")),
        ("arguments", obj(vec![("dir", s(project_dir)), ("pattern", s("paramcp")), ("extension", s("toml"))])),
    ]);
    let files: [(&str, &[u8]); 2] = [
        ("Cargo.toml", b"[package]\nname = \"paramcp\"\nversion = \"0.1.0\"\n"),
        ("README.md", b"# paramcp\n"),
    ];
    let resp = match server.handle_request(request(4, "tools/call", params)) {
        Step::CallTool { id, tool: BuiltinTool::FileSearch(_), arguments } => {
            let dir = arguments.as_ref().unwrap().get_str("dir").unwrap().to_string();
            let outcome = search_files(&dir, "paramcp", Some("toml"), &files);
            McpServer::<u32>::finish_tool_call(id, Ok(outcome))
        }
        _ => panic!("expected a call of file_search"),
    };
    assert!(resp.error.is_none());
    let (is_error, text) = result_text(&resp);
    assert!(!is_error);
    assert!(text.contains("Cargo.toml"));
    assert!(text.contains("paramcp"));
    assert!(!text.contains("README.md"));
}

#[test]
fn file_search_records_matching_lines_trimmed_and_numbered_from_one() {
    let files: [(&str, &[u8]); 2] = [
        ("a.txt", b"first\n   needle here  \nnothing\nneedle\n"),
        ("b.bin", b"needle\0needle\n"),
    ];
    let res = search_files("/d", "need+le", None, &files);
    let v: Value = serde_json::from_str(only_text(&res)).unwrap();
    assert_eq!(v["matches_count"], 2);
    assert_eq!(v["pattern"], "need+le");
    assert_eq!(v["matches"][0]["file"], "/d/a.txt");
    assert_eq!(v["matches"][0]["line"], 2);
    assert_eq!(v["matches"][0]["content"], "needle here");
    assert_eq!(v["matches"][1]["line"], 4);
    assert_eq!(v["matches"][1]["content"], "needle");
}

#[test]
fn file_search_stops_at_the_match_limit() {
    let many = "x\n".repeat(150);
    let files: [(&str, &[u8]); 1] = [("many.txt", many.as_bytes())];
    let res = search_files("/d", "x", None, &files);
    let v: Value = serde_json::from_str(only_text(&res)).unwrap();
    assert_eq!(v["matches_count"], 100);
}

#[test]
fn file_search_argument_errors() {
    let tool = FileSearchTool::new();
    let r = tool.prepare(Some(&obj(vec![("pattern", s("x"))]))).unwrap_err();
    assert_eq!(only_text(&r), "Error: Missing required argument 'dir'");
    assert!(r.is_error);
    let r = tool.prepare(Some(&obj(vec![("dir", s("/tmp"))]))).unwrap_err();
    assert_eq!(only_text(&r), "Error: Missing required argument 'pattern'");
    let r = tool.prepare(None).unwrap_err();
    assert_eq!(only_text(&r), "Error: Missing required argument 'dir'");
    let r = tool.prepare(Some(&obj(vec![("dir", JsonValue::Number(JsonNumber::PosInt(3))), ("pattern", s("x"))])));
    assert_eq!(only_text(&r.unwrap_err()), "Error: Missing required argument 'dir'");
    assert_eq!(only_text(&missing_arg("q")), "Error: Missing required argument 'q'");
}

#[test]
fn file_search_reports_bad_patterns_and_directories() {
    let r = FileSearchTool::compile_pattern("(unclosed").unwrap_err();
    assert!(r.is_error);
    assert!(only_text(&r).starts_with("Error: Invalid regex pattern: "));
    assert!(only_text(&r).len() > "Error: Invalid regex pattern: ".len());
    assert!(FileSearchTool::compile_pattern("a+b").is_ok());
    let r = FileSearchTool::not_a_directory("/no/such");
    assert_eq!(only_text(&r), "Error: Directory does not exist or is not a directory: /no/such");
    let r = FileSearchTool::search_failed("denied");
    assert_eq!(only_text(&r), "Error: Error searching files: denied");
}

#[test]
fn file_search_filters() {
    assert!(skip_directory(Some(".git")));
    assert!(skip_directory(Some("target")));
    assert!(!skip_directory(Some("src")));
    assert!(!skip_directory(Some("targets")));
    assert!(!skip_directory(None));
    assert!(extension_selected(None, None));
    assert!(extension_selected(Some("rs"), Some("rs")));
    assert!(!extension_selected(Some("rs"), Some("toml")));
    assert!(!extension_selected(Some("rs"), None));
    assert!(has_zero_byte(&[1, 2, 0, 3]));
    assert!(!has_zero_byte(&[1, 2, 3]));
    assert!(!has_zero_byte(&[]));
}

#[test]
fn fetch_url_cleans_html_to_markdown() {
    let tool = FetchUrlTool::new();
    let html = "<html><head><title>T</title></head><body>\
        <script>var x = 1;</script><style>p {}</style>\
        <h1>Title</h1><p>Hello &amp; <b>bold</b></p>\
        <ul><li>one</li><li>two</li></ul>\
        <a href=\"https://x.io\">link</a><br/>end&nbsp;&lt;ok&gt;</body></html>";
    let md = tool.clean_html_to_markdown(html);
    assert_eq!(md, "# Title\n\nHello & bold\n\n- one\n- two [link](https://x.io) \nend <ok>");
}

#[test]
fn fetch_url_collapses_blank_lines_and_spaces() {
    let tool = FetchUrlTool::new();
    assert_eq!(tool.clean_html_to_markdown("a\n\n\n\nb"), "a\n\nb");
    assert_eq!(tool.clean_html_to_markdown("a \t  b"), "a b");
    assert_eq!(tool.clean_html_to_markdown("  plain  "), "plain");
}

#[test]
fn fetch_url_results() {
    let r = FetchUrlTool::url_argument(None).unwrap_err();
    assert_eq!(only_text(&r), "Error: Missing required argument 'url'");
    assert!(r.is_error);
    let args = obj(vec![("url", s("https://example.com"))]);
    assert_eq!(FetchUrlTool::url_argument(Some(&args)).unwrap(), "https://example.com");
    assert_eq!(only_text(&FetchUrlTool::request_failed("timeout")), "HTTP Request failed: timeout");
    assert_eq!(only_text(&FetchUrlTool::bad_status("404 Not Found")), "Server returned error status: 404 Not Found");
    assert_eq!(only_text(&FetchUrlTool::read_failed("eof")), "Failed to read response text: eof");
    assert!(FetchUrlTool::status_is_success(200));
    assert!(FetchUrlTool::status_is_success(299));
    assert!(!FetchUrlTool::status_is_success(300));
    assert!(!FetchUrlTool::status_is_success(199));
    let page = FetchUrlTool::new().page_result("<p>x</p>");
    assert!(!page.is_error);
    assert_eq!(only_text(&page), "x");
}

#[test]
fn replace_literal_replaces_every_occurrence_left_to_right() {
    assert_eq!(replace_literal("a&amp;b&amp;", "&amp;", "&"), "a&b&");
    assert_eq!(replace_literal("aaa", "aa", "b"), "ba");
    assert_eq!(replace_literal("none", "x", "y"), "none");
    assert_eq!(replace_literal("&amp;amp;", "&amp;", "&"), "&amp;");
}
